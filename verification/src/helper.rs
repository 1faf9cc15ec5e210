//! What commands share: the form of an error report, of the complaint about
//! a wrong number of arguments, and of a command's help text.

use vstd::prelude::*;
use crate::number::{decimal, to_decimal};
use crate::shell::{Core, CoreView};
use crate::writer::{pieces_of, Piece, Span, Style};

verus! {

impl<H> CoreView<H> {
    /// This state after `pieces` went to the normal sink.
    pub open spec fn out(self, pieces: Seq<Piece>) -> Self {
        CoreView { stdout: self.stdout + pieces, ..self }
    }

    /// This state after `pieces` went to the error sink.
    pub open spec fn err(self, pieces: Seq<Piece>) -> Self {
        CoreView { stderr: self.stderr + pieces, ..self }
    }
}

/// An error report: the line `Error: ` with the title, then the message on
/// a line of its own.
pub open spec fn error_report(title: Seq<char>, message: Seq<Piece>) -> Seq<Piece> {
    seq![
        (Style::Alert, "Error"@),
        (Style::Plain, ": "@),
        (Style::Title, title),
        (Style::Plain, "\n"@),
    ] + message + seq![(Style::Plain, "\n"@)]
}

/// The complaint about `found` arguments where `expected` are needed.
pub open spec fn arguments_message(expected: u64, found: u64) -> Seq<char> {
    "Expected "@ + decimal(expected as nat) + " arguments, got "@ + decimal(found as nat) + "."@
}

/// One line of usage: the name, the arguments after a blank if there are
/// any, a tab and the description.
pub open spec fn usage_line(name: Seq<char>, usage: (Seq<char>, Seq<char>)) -> Seq<Piece> {
    seq![(Style::Strong, name)] + (if usage.0.len() == 0 {
        Seq::<Piece>::empty()
    } else {
        seq![(Style::Plain, " "@), (Style::Plain, usage.0)]
    }) + seq![(Style::Plain, "\t"@), (Style::Plain, usage.1), (Style::Plain, "\n"@)]
}

/// The usage lines of a command called `name`, one for each entry of
/// `usage`.
pub open spec fn usage_lines(name: Seq<char>, usage: Seq<(Seq<char>, Seq<char>)>) -> Seq<Piece>
    decreases usage.len(),
{
    if usage.len() == 0 {
        Seq::empty()
    } else {
        usage_lines(name, usage.drop_last()) + usage_line(name, usage.last())
    }
}

/// The help text of a command: a header with its names, an empty line, and
/// under `Usage:` its usage lines, which call it by its short name if it
/// has one.
pub open spec fn help_text(
    long: Seq<char>,
    short: Seq<char>,
    usage: Seq<(Seq<char>, Seq<char>)>,
    color: (u8, u8, u8),
) -> Seq<Piece> {
    let hue = Style::Rgb(color.0, color.1, color.2);
    let header = if short.len() == 0 {
        seq![(Style::Plain, "Command: ["@), (hue, long), (Style::Plain, "]\n\n"@)]
    } else {
        seq![
            (Style::Plain, "Commands: ["@),
            (hue, long),
            (Style::Plain, " | "@),
            (hue, short),
            (Style::Plain, "]\n\n"@),
        ]
    };
    let used = if short.len() == 0 {
        long
    } else {
        short
    };
    header + seq![(Style::Plain, "Usage:\n"@)] + usage_lines(used, usage)
}

/// The texts of the entries of a usage table.
pub open spec fn usage_texts(usage: Seq<(&str, &str)>) -> Seq<(Seq<char>, Seq<char>)> {
    Seq::new(usage.len(), |i: int| (usage[i].0@, usage[i].1@))
}

/// Reports an error on the error sink.
pub fn error_msg<H>(core: &mut Core<H>, title: &str, msg: &Vec<Span>)
    ensures
        final(core)@ == old(core)@.err(error_report(title@, pieces_of(msg@))),
{
    core.stderr.write(Style::Alert, "Error");
    core.stderr.write(Style::Plain, ": ");
    core.stderr.write(Style::Title, title);
    core.stderr.write(Style::Plain, "\n");
    core.stderr.write_spans(msg);
    core.stderr.write(Style::Plain, "\n");
    assert(core@.stderr == old(core)@.stderr + error_report(title@, pieces_of(msg@)));
}

/// Reports that a command got `args_len` arguments where it needs `expect`.
pub fn expect<H>(core: &mut Core<H>, args_len: u64, expect: u64)
    ensures
        final(core)@ == old(core)@.err(
            error_report("Arguments Error"@, seq![(Style::Plain, arguments_message(expect, args_len))]),
        ),
{
    let mut text = "Expected ".to_owned();
    text.append(to_decimal(expect).as_str());
    text.append(" arguments, got ");
    text.append(to_decimal(args_len).as_str());
    text.append(".");
    let mut msg: Vec<Span> = Vec::new();
    msg.push(Span::new(Style::Plain, text.as_str()));
    assert(pieces_of(msg@) == seq![(Style::Plain, arguments_message(expect, args_len))]);
    error_msg(core, "Arguments Error", &msg);
}

/// Prints the help text of the command `long`, also called `short` unless
/// that is empty, on the normal sink.
pub fn help<H>(core: &mut Core<H>, long: &str, short: &str, usage: Vec<(&str, &str)>)
    ensures
        final(core)@ == old(core)@.out(
            help_text(long@, short@, usage_texts(usage@), old(core)@.palette[5]),
        ),
{
    let (r, g, b) = core.color_palette[5];
    let hue = Style::Rgb(r, g, b);
    let used = if short.unicode_len() == 0 {
        core.stdout.write(Style::Plain, "Command: [");
        core.stdout.write(hue, long);
        core.stdout.write(Style::Plain, "]\n\n");
        long
    } else {
        core.stdout.write(Style::Plain, "Commands: [");
        core.stdout.write(hue, long);
        core.stdout.write(Style::Plain, " | ");
        core.stdout.write(hue, short);
        core.stdout.write(Style::Plain, "]\n\n");
        short
    };
    core.stdout.write(Style::Plain, "Usage:\n");
    let ghost head = core@.stdout;
    let ghost table = usage_texts(usage@);
    let ghost full = help_text(long@, short@, table, old(core)@.palette[5]);
    assert(head =~= old(core)@.stdout + full.take(full.len() - usage_lines(used@, table).len()));
    assert(full =~= full.take(full.len() - usage_lines(used@, table).len()) + usage_lines(
        used@,
        table,
    ));
    let mut i: usize = 0;
    while i < usage.len()
        invariant
            i <= usage@.len(),
            table == usage_texts(usage@),
            core@ == (CoreView { stdout: core@.stdout, ..old(core)@ }),
            core@.stdout == head + usage_lines(used@, table.take(i as int)),
        decreases usage@.len() - i,
    {
        let (args, description) = usage[i];
        let ghost before = core@.stdout;
        core.stdout.write(Style::Strong, used);
        if args.unicode_len() != 0 {
            core.stdout.write(Style::Plain, " ");
            core.stdout.write(Style::Plain, args);
        }
        core.stdout.write(Style::Plain, "\t");
        core.stdout.write(Style::Plain, description);
        core.stdout.write(Style::Plain, "\n");
        proof {
            assert(table.take(i + 1).drop_last() == table.take(i as int));
            assert(table.take(i + 1).last() == (args@, description@));
            assert(core@.stdout == before + usage_line(used@, (args@, description@)));
        }
        i += 1;
    }
    assert(table.take(i as int) == table);
    assert(core@.stdout =~= old(core)@.stdout + full);
}

} // verus!
