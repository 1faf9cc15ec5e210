//! The execution context: the registry of commands, the location cursor,
//! the two output sinks, the addressing mode, the colour palette and the
//! requests that wait for the address-space engine.

use vstd::prelude::*;
use std::rc::Rc;
use crate::commands::{bound, lookup, names_of, suggestions, texts, valid, Bindings, Commands};
use crate::helper::{error_msg, error_report};
use crate::io::map::{ListMap, MapCmd, UnMap};
use crate::io::{register_io, IoCmd, IoRequest};
use crate::writer::{pieces_of, Piece, Span, Style, Writer};

verus! {

/// How addresses are interpreted.
#[derive(Debug, Clone, Copy, PartialEq, Eq, Structural)]
pub enum AddrMode {
    Phy,
    Vir,
}

/// The execution context. `H` is the type of the command handlers.
pub struct Core<H> {
    pub stdout: Writer,
    pub stderr: Writer,
    pub mode: AddrMode,
    pub io: Vec<IoRequest>,
    pub loc: u64,
    pub commands: Commands<H>,
    pub color_palette: [(u8, u8, u8); 9],
}

/// The state of an execution context.
pub struct CoreView<H> {
    /// What was written to the normal sink.
    pub stdout: Seq<Piece>,
    /// What was written to the error sink.
    pub stderr: Seq<Piece>,
    pub mode: AddrMode,
    /// The requests that wait for the engine, oldest first.
    pub io: Seq<IoRequest>,
    /// The location cursor.
    pub loc: u64,
    /// The registered names with their handlers, oldest first.
    pub commands: Bindings<H>,
    /// The nine display colours.
    pub palette: Seq<(u8, u8, u8)>,
}

impl<H> View for Core<H> {
    type V = CoreView<H>;

    open spec fn view(&self) -> CoreView<H> {
        CoreView {
            stdout: self.stdout@,
            stderr: self.stderr@,
            mode: self.mode,
            io: self.io@,
            loc: self.loc,
            commands: self.commands@,
            palette: self.color_palette@,
        }
    }
}

impl<H> CoreView<H> {
    /// This state with the location cursor at `loc`.
    pub open spec fn at(self, loc: u64) -> Self {
        CoreView { loc, ..self }
    }
}

impl<H> Default for Core<H> {
    /// A context in physical mode at location 0, with empty sinks, no
    /// command, no request and an all-black palette.
    fn default() -> (core: Self)
        ensures
            core@ == (CoreView::<H> {
                stdout: Seq::empty(),
                stderr: Seq::empty(),
                mode: AddrMode::Phy,
                io: Seq::empty(),
                loc: 0,
                commands: Seq::empty(),
                palette: Seq::new(9, |i: int| (0u8, 0u8, 0u8)),
            }),
    {
        let core = Core {
            mode: AddrMode::Phy,
            stdout: Writer::new_buf(),
            stderr: Writer::new_buf(),
            io: Vec::new(),
            loc: 0,
            commands: Commands::new(),
            color_palette: [(0, 0, 0); 9],
        };
        assert(core@.palette == Seq::new(9, |i: int| (0u8, 0u8, 0u8)));
        core
    }
}

/// The nine display colours of the shell.
pub open spec fn palette() -> Seq<(u8, u8, u8)> {
    seq![
        (0x58u8, 0x68u8, 0x75u8),
        (0xb5u8, 0x89u8, 0x00u8),
        (0xcbu8, 0x4bu8, 0x16u8),
        (0xdcu8, 0x32u8, 0x2fu8),
        (0xd3u8, 0x36u8, 0x82u8),
        (0x6cu8, 0x71u8, 0xc4u8),
        (0x26u8, 0x8bu8, 0xd2u8),
        (0x2au8, 0xa1u8, 0x98u8),
        (0x85u8, 0x99u8, 0x00u8),
    ]
}

impl Core<IoCmd> {
    /// The context that the shell starts with: the default context with
    /// the commands of this library registered and the palette set.
    pub fn new() -> (core: Self)
        ensures
            core@ == (CoreView::<IoCmd> {
                stdout: Seq::empty(),
                stderr: Seq::empty(),
                mode: AddrMode::Phy,
                io: Seq::empty(),
                loc: 0,
                commands: seq![
                    ("map"@, IoCmd::MapCmd(MapCmd {  })),
                    ("unmap"@, IoCmd::UnMap(UnMap {  })),
                    ("um"@, IoCmd::UnMap(UnMap {  })),
                    ("maps"@, IoCmd::ListMap(ListMap {  })),
                ],
                palette: palette(),
            }),
            valid(core@.commands),
    {
        let mut core: Core<IoCmd> = Default::default();
        core.load_commands();
        core.init_colors();
        core
    }

    /// Registers the commands that the shell starts with.
    fn load_commands(&mut self)
        requires
            old(self)@.commands.len() == 0,
        ensures
            final(self)@ == (CoreView {
                commands: seq![
                    ("map"@, IoCmd::MapCmd(MapCmd {  })),
                    ("unmap"@, IoCmd::UnMap(UnMap {  })),
                    ("um"@, IoCmd::UnMap(UnMap {  })),
                    ("maps"@, IoCmd::ListMap(ListMap {  })),
                ],
                ..old(self)@
            }),
            valid(final(self)@.commands),
    {
        proof {
            reveal_strlit("map");
            reveal_strlit("unmap");
            reveal_strlit("um");
            reveal_strlit("maps");
            reveal_strlit("");
        }
        let ghost none = self@.commands;
        let ghost one = none.push(("map"@, IoCmd::MapCmd(MapCmd {  })));
        let ghost two = one.push(("unmap"@, IoCmd::UnMap(UnMap {  })));
        let ghost three = two.push(("um"@, IoCmd::UnMap(UnMap {  })));
        assert("map"@.len() == 3 && "unmap"@.len() == 5 && "um"@.len() == 2 && "maps"@.len() == 4);
        assert(valid(none));
        assert(!bound(none, "map"@));
        assert(!bound(one, "unmap"@));
        assert(!bound(two, "um"@));
        assert(!bound(three, "maps"@));
        register_io(self);
        assert(self@.commands == three.push(("maps"@, IoCmd::ListMap(ListMap {  }))));
        assert(self@.commands =~= seq![
            ("map"@, IoCmd::MapCmd(MapCmd {  })),
            ("unmap"@, IoCmd::UnMap(UnMap {  })),
            ("um"@, IoCmd::UnMap(UnMap {  })),
            ("maps"@, IoCmd::ListMap(ListMap {  })),
        ]);
    }
}

impl<H> Core<H> {
    /// Sets the palette to the nine display colours of the shell.
    fn init_colors(&mut self)
        ensures
            final(self)@ == (CoreView { palette: palette(), ..old(self)@ }),
    {
        self.color_palette = [
            (0x58, 0x68, 0x75),
            (0xb5, 0x89, 0x00),
            (0xcb, 0x4b, 0x16),
            (0xdc, 0x32, 0x2f),
            (0xd3, 0x36, 0x82),
            (0x6c, 0x71, 0xc4),
            (0x26, 0x8b, 0xd2),
            (0x2a, 0xa1, 0x98),
            (0x85, 0x99, 0x00),
        ];
        assert(self.color_palette@ == palette());
    }

    /// Moves the location cursor to `loc`.
    pub fn set_loc(&mut self, loc: u64)
        ensures
            final(self)@ == old(self)@.at(loc),
    {
        self.loc = loc;
    }

    /// The location cursor.
    pub fn get_loc(&self) -> (loc: u64)
        ensures
            loc == self@.loc,
    {
        self.loc
    }
}

/// The message of the report that `name` is taken.
pub open spec fn already_existed(name: Seq<char>) -> Seq<Piece> {
    seq![(Style::Plain, "Command "@), (Style::Strong, name), (Style::Plain, " already existed."@)]
}

/// The message of the report that nothing is registered as `name`.
pub open spec fn not_found(name: Seq<char>) -> Seq<Piece> {
    seq![(Style::Plain, "Command "@), (Style::Strong, name), (Style::Plain, " is not found."@)]
}

/// The names `names` in `hue`, with a comma and a blank between them.
pub open spec fn listed(names: Seq<Seq<char>>, hue: Style) -> Seq<Piece>
    decreases names.len(),
{
    if names.len() == 0 {
        Seq::empty()
    } else if names.len() == 1 {
        seq![(hue, names[0])]
    } else {
        listed(names.drop_last(), hue) + seq![(Style::Plain, ", "@), (hue, names.last())]
    }
}

/// The line that offers the names `names` in place of one that was not
/// found.
pub open spec fn similar_line(names: Seq<Seq<char>>, color: (u8, u8, u8)) -> Seq<Piece> {
    seq![(Style::Plain, "Similar command: "@)] + listed(
        names,
        Style::Rgb(color.0, color.1, color.2),
    ) + seq![(Style::Plain, ".\n"@)]
}

impl<H> CoreView<H> {
    /// This state after an attempt to register `handler` as `name`. An
    /// empty name is passed over; a name that is taken is reported on the
    /// error sink; a free name is bound.
    pub open spec fn try_bind(self, name: Seq<char>, handler: H) -> Self {
        if name.len() == 0 {
            self
        } else if bound(self.commands, name) {
            self.err(error_report("Cannot add this command."@, already_existed(name)))
        } else {
            CoreView { commands: self.commands.push((name, handler)), ..self }
        }
    }

    /// This state after `handler` was registered under its long and its
    /// short name, each on its own.
    pub open spec fn add_command(self, long: Seq<char>, short: Seq<char>, handler: H) -> Self {
        self.try_bind(long, handler).try_bind(short, handler)
    }

    /// This state after the report that nothing is registered as
    /// `command`, with the line of similar names if any name is within two
    /// edits of it.
    pub open spec fn command_not_found(self, command: Seq<char>) -> Self {
        let similar = suggestions(names_of(self.commands), command, 2);
        let reported = self.err(error_report("Execution failed"@, not_found(command)));
        if similar.len() == 0 {
            reported
        } else {
            reported.err(similar_line(similar, self.palette[5]))
        }
    }
}

/// A command handler: what a registered name leads to.
pub trait Cmd: Sized {
    /// What executing the command with the arguments `args` may turn the
    /// state `pre` into. A handler that does not say promises nothing.
    open spec fn run_spec(
        &self,
        pre: CoreView<Self>,
        args: Seq<Seq<char>>,
        post: CoreView<Self>,
    ) -> bool {
        true
    }

    /// What describing the command may turn the state `pre` into. A
    /// handler that does not say promises nothing.
    open spec fn help_spec(&self, pre: CoreView<Self>, post: CoreView<Self>) -> bool {
        true
    }

    /// Executes the command.
    fn run(&self, core: &mut Core<Self>, args: &[String])
        ensures
            self.run_spec(old(core)@, texts(args@), final(core)@),
            valid(old(core)@.commands) ==> valid(final(core)@.commands),
    ;

    /// Describes the command.
    fn help(&self, core: &mut Core<Self>)
        ensures
            self.help_spec(old(core)@, final(core)@),
            valid(old(core)@.commands) ==> valid(final(core)@.commands),
    ;
}

/// Running `command` with `args` may turn the state `pre` into `post`: the
/// handler that the name leads to was executed, or the miss was reported.
pub open spec fn ran<H: Cmd>(
    pre: CoreView<H>,
    command: Seq<char>,
    args: Seq<Seq<char>>,
    post: CoreView<H>,
) -> bool {
    match lookup(pre.commands, command) {
        Some(handler) => handler.run_spec(pre, args, post),
        None => post == pre.command_not_found(command),
    }
}

/// Asking for help on `command` may turn the state `pre` into `post`: the
/// handler that the name leads to described itself, or the miss was
/// reported.
pub open spec fn helped<H: Cmd>(pre: CoreView<H>, command: Seq<char>, post: CoreView<H>) -> bool {
    match lookup(pre.commands, command) {
        Some(handler) => handler.help_spec(pre, post),
        None => post == pre.command_not_found(command),
    }
}

impl<H> Core<H> {
    /// Registers `funcs` as `name` unless the name is empty, and reports a
    /// name that is taken.
    fn try_bind(&mut self, name: &str, funcs: Rc<H>)
        ensures
            final(self)@ == old(self)@.try_bind(name@, *funcs),
            valid(old(self)@.commands) ==> valid(final(self)@.commands),
    {
        if name.unicode_len() != 0 && !self.commands.add_command(name, funcs) {
            let mut msg: Vec<Span> = Vec::new();
            msg.push(Span::new(Style::Plain, "Command "));
            msg.push(Span::new(Style::Strong, name));
            msg.push(Span::new(Style::Plain, " already existed."));
            assert(pieces_of(msg@) == already_existed(name@));
            error_msg(self, "Cannot add this command.", &msg);
        }
    }

    /// Registers `funcs` under the name `long` and under the name `short`,
    /// passing over a name that is empty. Each name is tried on its own: one
    /// that is taken is reported on the error sink and does not keep the
    /// other from being bound.
    pub fn add_command(&mut self, long: &str, short: &str, funcs: Rc<H>)
        ensures
            final(self)@ == old(self)@.add_command(long@, short@, *funcs),
            valid(old(self)@.commands) ==> valid(final(self)@.commands),
    {
        self.try_bind(long, funcs.clone());
        self.try_bind(short, funcs);
    }

    /// Reports that nothing is registered as `command` and offers the
    /// registered names within two edits of it.
    fn command_not_found(&mut self, command: &str)
        ensures
            final(self)@ == old(self)@.command_not_found(command@),
    {
        let mut msg: Vec<Span> = Vec::new();
        msg.push(Span::new(Style::Plain, "Command "));
        msg.push(Span::new(Style::Strong, command));
        msg.push(Span::new(Style::Plain, " is not found."));
        assert(pieces_of(msg@) == not_found(command@));
        error_msg(self, "Execution failed", &msg);
        let similar = self.commands.suggest(command, 2);
        if similar.len() > 0 {
            let ghost names = texts(similar@);
            let ghost reported = self@.stderr;
            let (r, g, b) = self.color_palette[5];
            let hue = Style::Rgb(r, g, b);
            self.stderr.write(Style::Plain, "Similar command: ");
            self.stderr.write(hue, similar[0].as_str());
            assert(names.take(1) == seq![names[0]]);
            let mut i: usize = 1;
            while i < similar.len()
                invariant
                    1 <= i <= similar@.len(),
                    names == texts(similar@),
                    self@ == (CoreView { stderr: self@.stderr, ..old(self)@ }),
                    self@.stderr == reported + seq![(Style::Plain, "Similar command: "@)] + listed(
                        names.take(i as int),
                        hue,
                    ),
                decreases similar@.len() - i,
            {
                self.stderr.write(Style::Plain, ", ");
                self.stderr.write(hue, similar[i].as_str());
                proof {
                    assert(names.take(i + 1).drop_last() == names.take(i as int));
                    assert(names.take(i + 1).last() == names[i as int]);
                }
                i += 1;
            }
            self.stderr.write(Style::Plain, ".\n");
            proof {
                assert(names.take(i as int) == names);
                assert(self@.stderr == reported + similar_line(names, old(self)@.palette[5]));
            }
        }
    }
}

impl<H: Cmd> Core<H> {
    /// Executes the handler that is registered as exactly `command` with
    /// the arguments `args`. If there is none, reports the miss on the error
    /// sink, with the registered names within two edits of `command`.
    pub fn run(&mut self, command: &str, args: &[String])
        ensures
            ran(old(self)@, command@, texts(args@), final(self)@),
            valid(old(self)@.commands) ==> valid(final(self)@.commands),
    {
        match self.commands.find(command) {
            Some(handler) => handler.run(self, args),
            None => self.command_not_found(command),
        }
    }

    /// Runs `command` with the location cursor at `at`, and puts the cursor
    /// back where it was, whatever the command did.
    pub fn run_at(&mut self, command: &str, args: &[String], at: u64)
        ensures
            final(self)@.loc == old(self)@.loc,
            exists|done: CoreView<H>|
                #[trigger] ran(old(self)@.at(at), command@, texts(args@), done) && final(self)@
                    == done.at(old(self)@.loc),
            valid(old(self)@.commands) ==> valid(final(self)@.commands),
    {
        let old_loc: u64 = self.loc;
        self.loc = at;
        self.run(command, args);
        let ghost done = self@;
        self.loc = old_loc;
        assert(ran(old(self)@.at(at), command@, texts(args@), done));
    }

    /// Lets the handler that is registered as exactly `command` describe
    /// itself. If there is none, reports the miss as `run` does.
    pub fn help(&mut self, command: &str)
        ensures
            helped(old(self)@, command@, final(self)@),
            valid(old(self)@.commands) ==> valid(final(self)@.commands),
    {
        match self.commands.find(command) {
            Some(handler) => handler.help(self),
            None => self.command_not_found(command),
        }
    }
}

} // verus!
