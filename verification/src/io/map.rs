//! The commands that map and unmap memory regions and list the mapped
//! regions.

use vstd::prelude::*;
use crate::commands::texts;
use crate::helper::{
    arguments_message, error_msg, error_report, expect, help, help_text, usage_texts,
};
use crate::io::{IoRequest, MapRecord};
use crate::number::{hex_address, parse_number, str_to_num, to_hex, NumErr};
use crate::shell::{Core, CoreView};
use crate::writer::{pieces_of, Piece, Span, Style};

verus! {

impl<H> CoreView<H> {
    /// This state with `request` waiting for the engine behind the
    /// requests that wait already.
    pub open spec fn request(self, request: IoRequest) -> Self {
        CoreView { io: self.io.push(request), ..self }
    }
}

/// The message of the report that the argument called `name` is not a
/// number, with the cause.
pub open spec fn parse_failure(name: Seq<char>, cause: NumErr) -> Seq<Piece> {
    seq![
        (Style::Plain, "Failed to parse "@),
        (Style::Strong, name),
        (Style::Plain, ", "@),
        (Style::Plain, cause.message()),
    ]
}

/// The line that reports what the engine said when it refused a request.
pub open spec fn failure_line(title: Seq<char>, message: Seq<char>) -> Seq<Piece> {
    seq![
        (Style::Title, title),
        (Style::Plain, ": "@),
        (Style::Plain, message),
        (Style::Plain, "\n"@),
    ]
}

/// The report of a wrong number of arguments.
pub open spec fn arguments_report(expected: u64, found: u64) -> Seq<Piece> {
    error_report("Arguments Error"@, seq![(Style::Plain, arguments_message(expected, found))])
}

/// `text` with blanks behind it up to `width` characters.
pub open spec fn padded(text: Seq<char>, width: nat) -> Seq<char> {
    if text.len() >= width {
        text
    } else {
        text + Seq::new((width - text.len()) as nat, |i: int| ' ')
    }
}

/// The header of the table of mapped regions.
pub open spec fn table_header(color: (u8, u8, u8)) -> Seq<Piece> {
    let hue = Style::Rgb(color.0, color.1, color.2);
    seq![
        (hue, padded("Virtual Address"@, 20)),
        (hue, padded("Physical Address"@, 20)),
        (hue, padded("Size"@, 5)),
        (Style::Plain, "\n"@),
    ]
}

/// The table row of one mapped region.
pub open spec fn table_row(record: MapRecord) -> Seq<Piece> {
    seq![
        (Style::Plain, padded(hex_address(record.vaddr), 20)),
        (Style::Plain, padded(hex_address(record.paddr), 20)),
        (Style::Plain, padded(hex_address(record.size), 5)),
        (Style::Plain, "\n"@),
    ]
}

/// The table rows of the mapped regions `records`, in their order.
pub open spec fn table_rows(records: Seq<MapRecord>) -> Seq<Piece>
    decreases records.len(),
{
    if records.len() == 0 {
        Seq::empty()
    } else {
        table_rows(records.drop_last()) + table_row(records.last())
    }
}

/// What `map` turns the state `pre` into: a report of the first thing that
/// is wrong with the arguments, or the request to the engine.
pub open spec fn map_run<H>(pre: CoreView<H>, args: Seq<Seq<char>>) -> CoreView<H> {
    if args.len() != 3 {
        pre.err(arguments_report(3, args.len() as u64))
    } else {
        match (parse_number(args[0]), parse_number(args[1]), parse_number(args[2])) {
            (Err(cause), _, _) => pre.err(
                error_report("Failed to map memory"@, parse_failure("phy"@, cause)),
            ),
            (Ok(_), Err(cause), _) => pre.err(
                error_report("Failed to map memory"@, parse_failure("vir"@, cause)),
            ),
            (Ok(_), Ok(_), Err(cause)) => pre.err(
                error_report("Failed to map memory"@, parse_failure("size"@, cause)),
            ),
            (Ok(phy), Ok(vir), Ok(size)) => pre.request(IoRequest::MapRegion { phy, vir, size }),
        }
    }
}

/// What `unmap` turns the state `pre` into: a report of the first thing
/// that is wrong with the arguments, or the request to the engine.
pub open spec fn unmap_run<H>(pre: CoreView<H>, args: Seq<Seq<char>>) -> CoreView<H> {
    if args.len() != 2 {
        pre.err(arguments_report(2, args.len() as u64))
    } else {
        match (parse_number(args[0]), parse_number(args[1])) {
            (Err(cause), _) => pre.err(
                error_report("Failed to unmap memory"@, parse_failure("vir"@, cause)),
            ),
            (Ok(_), Err(cause)) => pre.err(
                error_report("Failed to unmap memory"@, parse_failure("size"@, cause)),
            ),
            (Ok(vir), Ok(size)) => pre.request(IoRequest::UnMapRegion { vir, size }),
        }
    }
}

/// What `maps` turns the state `pre` into: a report if there are
/// arguments, else the header of the table and the request for the regions.
pub open spec fn list_run<H>(pre: CoreView<H>, args: Seq<Seq<char>>) -> CoreView<H> {
    if args.len() != 0 {
        pre.err(arguments_report(0, args.len() as u64))
    } else {
        pre.out(table_header(pre.palette[5])).request(IoRequest::ListRegions)
    }
}

/// What the engine's answer to a request turns the state `pre` into:
/// nothing is said of a success, and a refusal is reported under `title`.
pub open spec fn answered<H>(
    pre: CoreView<H>,
    title: Seq<char>,
    outcome: Result<(), Seq<char>>,
) -> CoreView<H> {
    match outcome {
        Ok(_) => pre,
        Err(message) => pre.err(failure_line(title, message)),
    }
}

/// The help text of `map`.
pub open spec fn map_help(color: (u8, u8, u8)) -> Seq<Piece> {
    help_text(
        "map"@,
        ""@,
        seq![
            (
                "[phy] [vir] [size]"@,
                "Map region from physical address space to virtual address space."@,
            ),
        ],
        color,
    )
}

/// The help text of `unmap`.
pub open spec fn unmap_help(color: (u8, u8, u8)) -> Seq<Piece> {
    help_text(
        "unmap"@,
        "um"@,
        seq![("[vir] [size]"@, "Unmap a previosly mapped memory region."@)],
        color,
    )
}

/// The help text of `maps`.
pub open spec fn list_help(color: (u8, u8, u8)) -> Seq<Piece> {
    help_text("maps"@, ""@, seq![(""@, "List all memory maps."@)], color)
}

/// Reports on the error sink that the argument called `name` is not a
/// number.
fn report_parse_failure<H>(core: &mut Core<H>, title: &str, name: &str, cause: NumErr)
    ensures
        final(core)@ == old(core)@.err(error_report(title@, parse_failure(name@, cause))),
{
    let mut msg: Vec<Span> = Vec::new();
    msg.push(Span::new(Style::Plain, "Failed to parse "));
    msg.push(Span::new(Style::Strong, name));
    msg.push(Span::new(Style::Plain, ", "));
    msg.push(Span::new(Style::Plain, cause.to_string().as_str()));
    assert(pieces_of(msg@) == parse_failure(name@, cause));
    error_msg(core, title, &msg);
}

/// Reports on the error sink what the engine said when it refused a
/// request.
fn report_answer<H>(core: &mut Core<H>, title: &str, outcome: &Result<(), String>)
    ensures
        final(core)@ == answered(
            old(core)@,
            title@,
            match *outcome {
                Ok(_) => Ok(()),
                Err(message) => Err(message@),
            },
        ),
{
    if let Err(message) = outcome {
        core.stderr.write(Style::Title, title);
        core.stderr.write(Style::Plain, ": ");
        core.stderr.write(Style::Plain, message.as_str());
        core.stderr.write(Style::Plain, "\n");
        assert(core@.stderr == old(core)@.stderr + failure_line(title@, message@));
    }
}

/// `text` with blanks behind it up to `width` characters.
fn pad(text: &str, width: usize) -> (out: String)
    ensures
        out@ == padded(text@, width as nat),
{
    let mut out = text.to_owned();
    let mut n: usize = text.unicode_len();
    while n < width
        invariant
            text@.len() <= n,
            n > text@.len() ==> n <= width,
            out@ == text@ + Seq::new((n - text@.len()) as nat, |i: int| ' '),
        decreases width - n,
    {
        proof {
            reveal_strlit(" ");
        }
        out.append(" ");
        n += 1;
        assert(out@ == text@ + Seq::new((n - text@.len()) as nat, |i: int| ' '));
    }
    assert(out@ == padded(text@, width as nat));
    out
}

/// The command `map`: maps a region of the physical address space to the
/// virtual address space.
#[derive(Default)]
pub struct MapCmd {}

impl MapCmd {
    pub fn new() -> (command: Self)
        ensures
            command == (MapCmd {  }),
    {
        MapCmd {  }
    }

    /// Checks the arguments `phy`, `vir` and `size` and leaves the request
    /// for the engine, or reports the first thing that is wrong with them.
    pub fn run<H>(&self, core: &mut Core<H>, args: &[String])
        ensures
            final(core)@ == map_run(old(core)@, texts(args@)),
    {
        if args.len() != 3 {
            expect(core, args.len() as u64, 3);
            return ;
        }
        let phy = match str_to_num(args[0].as_str()) {
            Ok(p) => p,
            Err(e) => {
                report_parse_failure(core, "Failed to map memory", "phy", e);
                return ;
            },
        };
        let vir = match str_to_num(args[1].as_str()) {
            Ok(v) => v,
            Err(e) => {
                report_parse_failure(core, "Failed to map memory", "vir", e);
                return ;
            },
        };
        let size = match str_to_num(args[2].as_str()) {
            Ok(s) => s,
            Err(e) => {
                report_parse_failure(core, "Failed to map memory", "size", e);
                return ;
            },
        };
        core.io.push(IoRequest::MapRegion { phy, vir, size });
    }

    /// Takes the engine's answer to a request of `map`: a refusal is
    /// reported on the error sink in one line.
    pub fn done<H>(&self, core: &mut Core<H>, outcome: &Result<(), String>)
        ensures
            final(core)@ == answered(
                old(core)@,
                "Failed to map memory"@,
                match *outcome {
                    Ok(_) => Ok(()),
                    Err(message) => Err(message@),
                },
            ),
    {
        report_answer(core, "Failed to map memory", outcome);
    }

    /// Prints the help text of `map`.
    pub fn help<H>(&self, core: &mut Core<H>)
        ensures
            final(core)@ == old(core)@.out(map_help(old(core)@.palette[5])),
    {
        let mut usage: Vec<(&str, &str)> = Vec::new();
        usage.push(
            (
                "[phy] [vir] [size]",
                "Map region from physical address space to virtual address space.",
            ),
        );
        assert(usage_texts(usage@) == seq![
            (
                "[phy] [vir] [size]"@,
                "Map region from physical address space to virtual address space."@,
            ),
        ]);
        help(core, "map", "", usage);
    }
}

/// The command `unmap`, also `um`: unmaps a region that was mapped.
#[derive(Default)]
pub struct UnMap {}

impl UnMap {
    pub fn new() -> (command: Self)
        ensures
            command == (UnMap {  }),
    {
        UnMap {  }
    }

    /// Checks the arguments `vir` and `size` and leaves the request for
    /// the engine, or reports the first thing that is wrong with them.
    pub fn run<H>(&self, core: &mut Core<H>, args: &[String])
        ensures
            final(core)@ == unmap_run(old(core)@, texts(args@)),
    {
        if args.len() != 2 {
            expect(core, args.len() as u64, 2);
            return ;
        }
        let vir = match str_to_num(args[0].as_str()) {
            Ok(v) => v,
            Err(e) => {
                report_parse_failure(core, "Failed to unmap memory", "vir", e);
                return ;
            },
        };
        let size = match str_to_num(args[1].as_str()) {
            Ok(s) => s,
            Err(e) => {
                report_parse_failure(core, "Failed to unmap memory", "size", e);
                return ;
            },
        };
        core.io.push(IoRequest::UnMapRegion { vir, size });
    }

    /// Takes the engine's answer to a request of `unmap`: a refusal is
    /// reported on the error sink in one line.
    pub fn done<H>(&self, core: &mut Core<H>, outcome: &Result<(), String>)
        ensures
            final(core)@ == answered(
                old(core)@,
                "Failed to unmap memory"@,
                match *outcome {
                    Ok(_) => Ok(()),
                    Err(message) => Err(message@),
                },
            ),
    {
        report_answer(core, "Failed to unmap memory", outcome);
    }

    /// Prints the help text of `unmap`.
    pub fn help<H>(&self, core: &mut Core<H>)
        ensures
            final(core)@ == old(core)@.out(unmap_help(old(core)@.palette[5])),
    {
        let mut usage: Vec<(&str, &str)> = Vec::new();
        usage.push(("[vir] [size]", "Unmap a previosly mapped memory region."));
        assert(usage_texts(usage@) == seq![
            ("[vir] [size]"@, "Unmap a previosly mapped memory region."@),
        ]);
        help(core, "unmap", "um", usage);
    }
}

/// The command `maps`: lists the mapped regions.
#[derive(Default)]
pub struct ListMap {}

impl ListMap {
    pub fn new() -> (command: Self)
        ensures
            command == (ListMap {  }),
    {
        ListMap {  }
    }

    /// Prints the header of the table and leaves the request for the
    /// regions, or reports that there are arguments.
    pub fn run<H>(&self, core: &mut Core<H>, args: &[String])
        ensures
            final(core)@ == list_run(old(core)@, texts(args@)),
    {
        if args.len() != 0 {
            expect(core, args.len() as u64, 0);
            return ;
        }
        let (r, g, b) = core.color_palette[5];
        let hue = Style::Rgb(r, g, b);
        core.stdout.write(hue, pad("Virtual Address", 20).as_str());
        core.stdout.write(hue, pad("Physical Address", 20).as_str());
        core.stdout.write(hue, pad("Size", 5).as_str());
        core.stdout.write(Style::Plain, "\n");
        assert(core@.stdout == old(core)@.stdout + table_header(old(core)@.palette[5]));
        core.io.push(IoRequest::ListRegions);
    }

    /// Takes the engine's answer to a request of `maps`: prints one row
    /// for each mapped region, in the engine's order.
    pub fn done<H>(&self, core: &mut Core<H>, maps: &[MapRecord])
        ensures
            final(core)@ == old(core)@.out(table_rows(maps@)),
    {
        let mut i: usize = 0;
        while i < maps.len()
            invariant
                i <= maps@.len(),
                core@ == old(core)@.out(table_rows(maps@.take(i as int))),
            decreases maps@.len() - i,
        {
            let ghost before = core@.stdout;
            core.stdout.write(Style::Plain, pad(to_hex(maps[i].vaddr).as_str(), 20).as_str());
            core.stdout.write(Style::Plain, pad(to_hex(maps[i].paddr).as_str(), 20).as_str());
            core.stdout.write(Style::Plain, pad(to_hex(maps[i].size).as_str(), 5).as_str());
            core.stdout.write(Style::Plain, "\n");
            proof {
                assert(maps@.take(i + 1).drop_last() == maps@.take(i as int));
                assert(maps@.take(i + 1).last() == maps@[i as int]);
                assert(core@.stdout == before + table_row(maps@[i as int]));
                assert(core@.stdout =~= old(core)@.stdout + table_rows(maps@.take(i + 1)));
            }
            i += 1;
        }
        assert(maps@.take(i as int) == maps@);
    }

    /// Prints the help text of `maps`.
    pub fn help<H>(&self, core: &mut Core<H>)
        ensures
            final(core)@ == old(core)@.out(list_help(old(core)@.palette[5])),
    {
        let mut usage: Vec<(&str, &str)> = Vec::new();
        usage.push(("", "List all memory maps."));
        assert(usage_texts(usage@) == seq![(""@, "List all memory maps."@)]);
        help(core, "maps", "", usage);
    }
}

} // verus!
