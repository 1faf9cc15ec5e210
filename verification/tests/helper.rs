use rair_core::helper::{error_msg, expect, help};
use rair_core::io::IoCmd;
use rair_core::shell::Core;
use rair_core::writer::{Span, Style};

fn bare() -> Core<IoCmd> {
    Default::default()
}

#[test]
fn error_report_has_a_title_line_and_a_message_line() {
    let mut core = bare();
    let msg = vec![
        Span::new(Style::Plain, "Command "),
        Span::new(Style::Strong, "s"),
        Span::new(Style::Plain, " already existed."),
    ];
    error_msg(&mut core, "Cannot add this command.", &msg);
    assert_eq!(core.stderr.text(), "Error: Cannot add this command.\nCommand s already existed.\n");
    assert_eq!(core.stdout.text(), "");
    error_msg(&mut core, "", &Vec::new());
    assert_eq!(
        core.stderr.text(),
        "Error: Cannot add this command.\nCommand s already existed.\nError: \n\n"
    );
}

#[test]
fn expect_names_both_counts() {
    let mut core = bare();
    expect(&mut core, 0, 1);
    assert_eq!(core.stderr.text(), "Error: Arguments Error\nExpected 1 arguments, got 0.\n");
    let mut core = Core::new();
    expect(&mut core, 12, 3);
    assert_eq!(core.stderr.text(), "Error: Arguments Error\nExpected 3 arguments, got 12.\n");
    assert_eq!(core.stdout.text(), "");
}

#[test]
fn help_of_a_command_with_one_name() {
    let mut core = bare();
    help(&mut core, "maps", "", vec![("", "List all memory maps.")]);
    assert_eq!(core.stdout.text(), "Command: [maps]\n\nUsage:\nmaps\tList all memory maps.\n");
    assert_eq!(core.stderr.text(), "");
}

#[test]
fn help_of_a_command_with_two_names_and_two_usages() {
    let mut core = bare();
    help(
        &mut core,
        "seek",
        "s",
        vec![("", "Print the current location."), ("[addr]", "Move to addr.")],
    );
    assert_eq!(
        core.stdout.text(),
        "Commands: [seek | s]\n\nUsage:\ns\tPrint the current location.\ns [addr]\tMove to addr.\n"
    );
}

#[test]
fn help_without_usage_lines() {
    let mut core = bare();
    help(&mut core, "quit", "q", Vec::new());
    assert_eq!(core.stdout.text(), "Commands: [quit | q]\n\nUsage:\n");
}
