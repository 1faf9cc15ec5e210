use rair_core::commands::Commands;
use std::rc::Rc;

fn names(found: Vec<String>) -> Vec<String> {
    found
}

#[test]
fn second_add_of_a_name_is_refused() {
    let mut commands: Commands<u32> = Commands::new();
    let first = Rc::new(1);
    let second = Rc::new(2);
    assert!(commands.add_command("open", first.clone()));
    assert!(!commands.add_command("open", second.clone()));
    let found = commands.find("open").unwrap();
    assert!(Rc::ptr_eq(&found, &first));
    assert!(!Rc::ptr_eq(&found, &second));
    assert_eq!(*found, 1);
}

#[test]
fn one_handler_under_two_names_is_found_under_each() {
    let mut commands: Commands<u32> = Commands::new();
    let shared = Rc::new(7);
    assert!(commands.add_command("unmap", shared.clone()));
    assert!(commands.add_command("um", shared.clone()));
    assert!(Rc::ptr_eq(&commands.find("unmap").unwrap(), &shared));
    assert!(Rc::ptr_eq(&commands.find("um").unwrap(), &shared));
}

#[test]
fn a_taken_name_does_not_block_a_free_one() {
    let mut commands: Commands<u32> = Commands::new();
    assert!(commands.add_command("seek", Rc::new(1)));
    let shared = Rc::new(2);
    assert!(!commands.add_command("seek", shared.clone()));
    assert!(commands.add_command("sk", shared.clone()));
    assert_eq!(*commands.find("seek").unwrap(), 1);
    assert_eq!(*commands.find("sk").unwrap(), 2);
}

#[test]
fn find_is_exact() {
    let mut commands: Commands<u32> = Commands::new();
    assert!(commands.add_command("maps", Rc::new(1)));
    assert!(commands.find("map").is_none());
    assert!(commands.find("mapss").is_none());
    assert!(commands.find("Maps").is_none());
    assert!(commands.find("").is_none());
    assert!(commands.find("maps").is_some());
}

#[test]
fn suggest_mep() {
    let mut commands: Commands<u32> = Commands::new();
    commands.add_command("map", Rc::new(1));
    commands.add_command("maps", Rc::new(2));
    commands.add_command("m", Rc::new(3));
    assert_eq!(names(commands.suggest("mep", 2)), vec!["map", "maps", "m"]);
}

#[test]
fn suggest_breaks_ties_by_registration_order() {
    let mut commands: Commands<u32> = Commands::new();
    commands.add_command("m", Rc::new(3));
    commands.add_command("maps", Rc::new(2));
    commands.add_command("map", Rc::new(1));
    assert_eq!(names(commands.suggest("mep", 2)), vec!["map", "m", "maps"]);
}

#[test]
fn suggest_respects_the_tolerance() {
    let mut commands: Commands<u32> = Commands::new();
    commands.add_command("map", Rc::new(1));
    commands.add_command("maps", Rc::new(2));
    commands.add_command("m", Rc::new(3));
    commands.add_command("unmap", Rc::new(4));
    assert!(commands.suggest("mep", 0).is_empty());
    assert_eq!(names(commands.suggest("mep", 1)), vec!["map"]);
    assert_eq!(names(commands.suggest("mep", 3)), vec!["map", "maps", "m", "unmap"]);
    assert_eq!(names(commands.suggest("mep", u64::MAX)), vec!["map", "maps", "m", "unmap"]);
    assert_eq!(names(commands.suggest("map", 0)), vec!["map"]);
}

#[test]
fn suggest_uses_the_whole_name() {
    let mut commands: Commands<u32> = Commands::new();
    commands.add_command("writeToFile", Rc::new(1));
    commands.add_command("write", Rc::new(2));
    assert_eq!(names(commands.suggest("writ", 2)), vec!["write"]);
    assert_eq!(names(commands.suggest("WRITE", 2)), Vec::<String>::new());
}

#[test]
fn suggest_on_an_empty_registry() {
    let commands: Commands<u32> = Commands::new();
    assert!(commands.suggest("anything", 2).is_empty());
    assert!(commands.suggest("", u64::MAX).is_empty());
}

#[test]
fn prefix_finds_the_names_that_begin_so() {
    let mut commands: Commands<u32> = Commands::new();
    commands.add_command("map", Rc::new(1));
    commands.add_command("unmap", Rc::new(2));
    commands.add_command("um", Rc::new(2));
    commands.add_command("maps", Rc::new(3));
    assert_eq!(names(commands.prefix("ma")), vec!["map", "maps"]);
    assert_eq!(names(commands.prefix("map")), vec!["map", "maps"]);
    assert_eq!(names(commands.prefix("maps")), vec!["maps"]);
    assert_eq!(names(commands.prefix("u")), vec!["unmap", "um"]);
    assert_eq!(names(commands.prefix("")), vec!["map", "unmap", "um", "maps"]);
    assert!(commands.prefix("mapss").is_empty());
    assert!(commands.prefix("ap").is_empty());
    assert!(commands.prefix("M").is_empty());
}
