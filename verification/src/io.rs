//! The shell's side of the address-space engine. The engine itself is not
//! part of this library: commands leave requests for it in the execution
//! context, and its answers are handed back to them.

use vstd::prelude::*;
use std::rc::Rc;
use crate::commands::valid;
use crate::io::map::{
    list_help, list_run, map_help, map_run, unmap_help, unmap_run, ListMap, MapCmd, UnMap,
};
use crate::shell::{Cmd, Core, CoreView};

pub mod map;

verus! {

/// What a command asks of the address-space engine.
#[derive(Debug, Clone, Copy, PartialEq, Eq, Structural)]
pub enum IoRequest {
    /// Map `size` bytes at the physical address `phy` to the virtual
    /// address `vir`.
    MapRegion { phy: u64, vir: u64, size: u64 },
    /// Unmap `size` bytes at the virtual address `vir`.
    UnMapRegion { vir: u64, size: u64 },
    /// Hand over the regions that are mapped.
    ListRegions,
}

/// A mapped region, as the engine reports it.
#[derive(Debug, Clone, Copy, PartialEq, Eq, Structural)]
pub struct MapRecord {
    pub vaddr: u64,
    pub paddr: u64,
    pub size: u64,
}

/// The commands of this library, as handlers for the registry.
pub enum IoCmd {
    MapCmd(MapCmd),
    UnMap(UnMap),
    ListMap(ListMap),
}

impl Cmd for IoCmd {
    open spec fn run_spec(
        &self,
        pre: CoreView<Self>,
        args: Seq<Seq<char>>,
        post: CoreView<Self>,
    ) -> bool {
        post == match self {
            IoCmd::MapCmd(_) => map_run(pre, args),
            IoCmd::UnMap(_) => unmap_run(pre, args),
            IoCmd::ListMap(_) => list_run(pre, args),
        }
    }

    open spec fn help_spec(&self, pre: CoreView<Self>, post: CoreView<Self>) -> bool {
        post == pre.out(
            match self {
                IoCmd::MapCmd(_) => map_help(pre.palette[5]),
                IoCmd::UnMap(_) => unmap_help(pre.palette[5]),
                IoCmd::ListMap(_) => list_help(pre.palette[5]),
            },
        )
    }

    fn run(&self, core: &mut Core<Self>, args: &[String]) {
        match self {
            IoCmd::MapCmd(command) => command.run(core, args),
            IoCmd::UnMap(command) => command.run(core, args),
            IoCmd::ListMap(command) => command.run(core, args),
        }
    }

    fn help(&self, core: &mut Core<Self>) {
        match self {
            IoCmd::MapCmd(command) => command.help(core),
            IoCmd::UnMap(command) => command.help(core),
            IoCmd::ListMap(command) => command.help(core),
        }
    }
}

/// Registers the commands of this library: `map`, `unmap` with its short
/// name `um`, and `maps`.
pub fn register_io(core: &mut Core<IoCmd>)
    ensures
        final(core)@ == old(core)@.add_command("map"@, ""@, IoCmd::MapCmd(MapCmd {  })).add_command(
            "unmap"@,
            "um"@,
            IoCmd::UnMap(UnMap {  }),
        ).add_command("maps"@, ""@, IoCmd::ListMap(ListMap {  })),
        valid(old(core)@.commands) ==> valid(final(core)@.commands),
{
    core.add_command("map", "", Rc::new(IoCmd::MapCmd(MapCmd::new())));
    core.add_command("unmap", "um", Rc::new(IoCmd::UnMap(UnMap::new())));
    core.add_command("maps", "", Rc::new(IoCmd::ListMap(ListMap::new())));
}

impl<H> Core<H> {
    /// Hands over the requests that wait for the engine, oldest first, and
    /// leaves none waiting.
    pub fn take_requests(&mut self) -> (requests: Vec<IoRequest>)
        ensures
            requests@ == old(self)@.io,
            final(self)@ == (CoreView { io: Seq::empty(), ..old(self)@ }),
    {
        let mut waiting: Vec<IoRequest> = Vec::new();
        std::mem::swap(&mut self.io, &mut waiting);
        waiting
    }
}

} // verus!
