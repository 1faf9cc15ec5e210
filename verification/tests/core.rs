use rair_core::io::map::{ListMap, MapCmd};
use rair_core::io::IoCmd;
use rair_core::shell::{AddrMode, Cmd, Core};
use rair_core::writer::Writer;
use std::rc::Rc;
use yansi::Paint;

/// A handler that moves the cursor and says so.
struct Jump {
    to: u64,
}

impl Cmd for Jump {
    fn run(&self, core: &mut Core<Self>, args: &[String]) {
        core.set_loc(self.to);
        core.stdout.write(rair_core::writer::Style::Plain, "jumped");
        for arg in args {
            core.stdout.write(rair_core::writer::Style::Plain, arg);
        }
    }

    fn help(&self, core: &mut Core<Self>) {
        core.stdout.write(rair_core::writer::Style::Plain, "jump help");
    }
}

/// A handler that runs another command from inside its own run.
enum Script {
    Twice(&'static str),
    Mark,
}

impl Cmd for Script {
    fn run(&self, core: &mut Core<Self>, args: &[String]) {
        match self {
            Script::Twice(inner) => {
                core.run(inner, args);
                core.run(inner, args);
            }
            Script::Mark => {
                let at = core.get_loc();
                core.set_loc(at + 1);
            }
        }
    }

    fn help(&self, _core: &mut Core<Self>) {}
}

fn listing() -> Rc<IoCmd> {
    Rc::new(IoCmd::ListMap(ListMap::new()))
}

/// The context that the shell starts with, and the names `seek`, `s`,
/// `mode` and `m` on top of it.
fn shell() -> Core<IoCmd> {
    let mut core = Core::new();
    core.add_command("seek", "s", listing());
    core.add_command("mode", "m", listing());
    core
}

#[test]
fn test_loc() {
    let mut core = Core::new();
    core.set_loc(0x500);
    assert_eq!(core.get_loc(), 0x500);
}

#[test]
fn test_add_command() {
    Paint::disable();
    let mut core = shell();
    core.stderr = Writer::new_buf();
    core.stdout = Writer::new_buf();
    core.add_command("a_non_existing_command", "a", listing());
    assert_eq!(core.stderr.utf8_string(), "");
    assert_eq!(core.stdout.utf8_string(), "");
    core.stderr = Writer::new_buf();
    core.stdout = Writer::new_buf();
    core.add_command("test_command", "s", listing());
    assert_eq!(core.stderr.utf8_string(), "Error: Cannot add this command.\nCommand s already existed.\n");
    core.stderr = Writer::new_buf();
    core.stdout = Writer::new_buf();
    core.add_command("seek", "test_stuff", listing());
    assert_eq!(core.stderr.utf8_string(), "Error: Cannot add this command.\nCommand seek already existed.\n");
}

#[test]
fn test_help() {
    Paint::disable();
    let mut core = shell();
    core.stderr = Writer::new_buf();
    core.stdout = Writer::new_buf();
    core.help("seeker");
    assert_eq!(core.stdout.utf8_string(), "");
    assert_eq!(core.stderr.utf8_string(), "Error: Execution failed\nCommand seeker is not found.\nSimilar command: seek.\n");
}

#[test]
fn test_run_at() {
    Paint::disable();
    let mut core = shell();
    core.stderr = Writer::new_buf();
    core.stdout = Writer::new_buf();
    core.run_at("mep", &[], 0x500);
    assert_eq!(core.stdout.utf8_string(), "");
    assert_eq!(
        core.stderr.utf8_string(),
        "Error: Execution failed\nCommand mep is not found.\nSimilar command: map, maps, m.\n"
    );
}

#[test]
fn new_core_starts_clean() {
    let core = Core::new();
    assert_eq!(core.get_loc(), 0);
    assert_eq!(core.mode, AddrMode::Phy);
    assert_eq!(core.stdout.text(), "");
    assert_eq!(core.stderr.text(), "");
    assert!(core.io.is_empty());
    assert_eq!(core.color_palette.len(), 9);
    assert_eq!(core.color_palette[0], (0x58, 0x68, 0x75));
    assert_eq!(core.color_palette[5], (0x6c, 0x71, 0xc4));
    assert_eq!(core.color_palette[8], (0x85, 0x99, 0x00));
    assert!(core.commands.find("map").is_some());
    assert!(core.commands.find("unmap").is_some());
    assert!(core.commands.find("um").is_some());
    assert!(core.commands.find("maps").is_some());
    assert!(core.commands.find("ma").is_none());
}

#[test]
fn default_core_has_no_commands() {
    let mut core: Core<IoCmd> = Default::default();
    assert!(core.commands.find("map").is_none());
    assert_eq!(core.color_palette, [(0, 0, 0); 9]);
    core.run("map", &[]);
    assert_eq!(core.stderr.text(), "Error: Execution failed\nCommand map is not found.\n");
}

#[test]
fn run_seeker_suggests_seek_only() {
    let mut core = shell();
    core.run("seeker", &[]);
    assert_eq!(core.stdout.text(), "");
    assert_eq!(
        core.stderr.text(),
        "Error: Execution failed\nCommand seeker is not found.\nSimilar command: seek.\n"
    );
}

#[test]
fn miss_without_near_names_has_no_suggestion_line() {
    let mut core = shell();
    core.run("disassemble", &[]);
    assert_eq!(core.stderr.text(), "Error: Execution failed\nCommand disassemble is not found.\n");
}

#[test]
fn lookup_is_exact() {
    let mut core = shell();
    core.run("see", &[]);
    assert_eq!(
        core.stderr.text(),
        "Error: Execution failed\nCommand see is not found.\nSimilar command: seek, s.\n"
    );
    assert_eq!(core.stdout.text(), "");
}

#[test]
fn run_executes_the_handler() {
    let mut core: Core<Jump> = Default::default();
    core.add_command("jump", "j", Rc::new(Jump { to: 0x40 }));
    core.run("jump", &["a".to_string(), "b".to_string()]);
    assert_eq!(core.get_loc(), 0x40);
    assert_eq!(core.stdout.text(), "jumpedab");
    assert_eq!(core.stderr.text(), "");
    core.help("j");
    assert_eq!(core.stdout.text(), "jumpedabjump help");
}

#[test]
fn run_at_restores_location_after_a_hit() {
    let mut core: Core<Jump> = Default::default();
    core.add_command("jump", "", Rc::new(Jump { to: 0x40 }));
    core.set_loc(0x10);
    core.run_at("jump", &[], 0x500);
    assert_eq!(core.get_loc(), 0x10);
    assert_eq!(core.stdout.text(), "jumped");
}

#[test]
fn run_at_restores_location_after_a_miss() {
    let mut core = Core::new();
    core.set_loc(0x10);
    core.run_at("nothing_like_it", &[], 0x500);
    assert_eq!(core.get_loc(), 0x10);
    assert_eq!(core.stderr.text(), "Error: Execution failed\nCommand nothing_like_it is not found.\n");
}

#[test]
fn run_at_runs_at_the_given_location() {
    let mut core: Core<Script> = Default::default();
    core.add_command("mark", "", Rc::new(Script::Mark));
    core.set_loc(7);
    core.run("mark", &[]);
    assert_eq!(core.get_loc(), 8);
    core.run_at("mark", &[], 0x500);
    assert_eq!(core.get_loc(), 8);
}

#[test]
fn a_handler_may_run_other_commands() {
    let mut core: Core<Script> = Default::default();
    core.add_command("mark", "", Rc::new(Script::Mark));
    core.add_command("twice", "", Rc::new(Script::Twice("mark")));
    core.add_command("lost", "", Rc::new(Script::Twice("marc")));
    core.run("twice", &[]);
    assert_eq!(core.get_loc(), 2);
    core.run("lost", &[]);
    assert_eq!(
        core.stderr.text(),
        "Error: Execution failed\nCommand marc is not found.\nSimilar command: mark.\n\
         Error: Execution failed\nCommand marc is not found.\nSimilar command: mark.\n"
    );
}

#[test]
fn each_name_is_registered_on_its_own() {
    let mut core = Core::new();
    let shared = Rc::new(IoCmd::MapCmd(MapCmd::new()));
    // The long name is taken, the short one is free.
    core.add_command("map", "mp", shared.clone());
    assert_eq!(core.stderr.text(), "Error: Cannot add this command.\nCommand map already existed.\n");
    assert!(core.commands.find("mp").is_some());
    // Both are taken: one report for each.
    core.stderr = Writer::new_buf();
    core.add_command("maps", "um", shared.clone());
    assert_eq!(
        core.stderr.text(),
        "Error: Cannot add this command.\nCommand maps already existed.\n\
         Error: Cannot add this command.\nCommand um already existed.\n"
    );
    // Empty names are passed over.
    core.stderr = Writer::new_buf();
    core.add_command("", "", shared.clone());
    core.add_command("fresh", "", shared);
    assert_eq!(core.stderr.text(), "");
    assert!(core.commands.find("fresh").is_some());
    assert!(core.commands.find("").is_none());
}

#[test]
fn one_handler_under_two_names() {
    let mut core: Core<Jump> = Default::default();
    let shared = Rc::new(Jump { to: 0x77 });
    core.add_command("jump", "j", shared.clone());
    assert!(Rc::ptr_eq(&core.commands.find("jump").unwrap(), &shared));
    assert!(Rc::ptr_eq(&core.commands.find("j").unwrap(), &shared));
    core.run("j", &[]);
    assert_eq!(core.get_loc(), 0x77);
}
