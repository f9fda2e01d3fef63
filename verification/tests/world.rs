use rusty_fortress::action::{execute, Action};
use rusty_fortress::base::{BaseObject, Capability, Door};
use rusty_fortress::command::{
    get_all_keywords, get_all_objects, Command, DefaultCommandHandler, HandleCommand,
};
use rusty_fortress::env::{error_message, help_message, invoke, quit_message, Environment};
use rusty_fortress::parser::{Keyword, OutputAction, StateMachine};
use rusty_fortress::prompt::turn;
use rusty_fortress::syntax::{analyze_syntax, SyntaxRule};
use rusty_fortress::universe::{DoorState, LockedDoor, Name, Open, OpenWith};

const NOT_UNDERSTOOD: &str = "Cannot understand what are you trying to do.";

fn make_door(name: &str, description: &str, is_locked: bool, locked_by: Option<&str>) -> Door {
    *Door::boxed(String::from(name), String::from(description), is_locked, locked_by.map(String::from))
}

fn world() -> Environment<Door> {
    Environment::with_objects(vec![
        make_door("Main Door", "It's just a main door", true, None),
        make_door("Vault", "A heavy vault", true, Some("Gold Key")),
        make_door("Gold Key", "A small key", false, None),
        make_door("Iron Key", "A rusty key", false, None),
    ])
}

fn keyword(k: Keyword) -> OutputAction {
    OutputAction::Keyword(k)
}

fn object(text: &str) -> OutputAction {
    OutputAction::Object(String::from(text))
}

fn say(world: &mut Environment<Door>, line: &str) -> (bool, String) {
    let machine = StateMachine::build();
    turn(&machine, world, line).unwrap()
}

fn locked(world: &Environment<Door>) -> Vec<bool> {
    (0..world.len()).map(|i| world.get(i).unwrap().is_locked).collect()
}

#[test]
fn the_messages() {
    assert_eq!(help_message(), "This help, right now, doesn't help too much.");
    assert_eq!(error_message(), NOT_UNDERSTOOD);
    assert_eq!(quit_message(), "Good bye, cruel world.");
}

#[test]
fn the_world_starts_with_the_main_door() {
    let world = Environment::new();
    assert_eq!(world.len(), 1);
    let door = world.get(0).unwrap();
    assert_eq!(door.name, "Main Door");
    assert_eq!(door.description, "It's just a main door");
    assert!(door.is_locked);
    assert_eq!(door.locked_by, None);
    assert!(world.get(1).is_none());
}

#[test]
fn names_are_found_whatever_their_case() {
    let world = world();
    assert_eq!(world.find_position("vault"), Some(1));
    assert_eq!(world.find_position("GOLD KEY"), Some(2));
    assert_eq!(world.find_position("Main Door"), Some(0));
    assert_eq!(world.find_position("main"), None);
}

#[test]
fn the_first_of_two_equal_names_is_found() {
    let world = Environment::with_objects(vec![
        make_door("Gate", "first", true, None),
        make_door("GATE", "second", true, None),
    ]);
    assert_eq!(world.find_position("gate"), Some(0));
}

#[test]
fn help_gives_the_help() {
    let mut world = world();
    assert_eq!(say(&mut world, "help"), (true, help_message()));
    assert_eq!(say(&mut world, "?"), (true, help_message()));
}

#[test]
fn exit_stops_like_quit() {
    let mut world = world();
    assert_eq!(say(&mut world, "exit"), (false, quit_message()));
}

#[test]
fn an_empty_line_is_passed_over() {
    let machine = StateMachine::build();
    let mut world = world();
    assert_eq!(turn(&machine, &mut world, ""), None);
    assert_eq!(locked(&world), vec![true, true, false, false]);
}

#[test]
fn open_changes_only_the_door_that_is_opened() {
    let mut world = world();
    assert_eq!(say(&mut world, "open MAIN door"), (true, String::from("You open the door.")));
    assert_eq!(locked(&world), vec![false, true, false, false]);
}

#[test]
fn open_a_door_that_asks_for_a_key() {
    let mut world = world();
    assert_eq!(
        say(&mut world, "open vault"),
        (true, String::from("You need some key to open that door."))
    );
    assert_eq!(locked(&world), vec![true, true, false, false]);
}

#[test]
fn open_an_unknown_name() {
    let mut world = world();
    assert_eq!(say(&mut world, "open window"), (true, String::from("Cannot find window.")));
    assert_eq!(locked(&world), vec![true, true, false, false]);
}

#[test]
fn open_with_reports_the_first_name_that_is_unknown() {
    let mut world = world();
    assert_eq!(
        say(&mut world, "open window with stick"),
        (true, String::from("Cannot find window."))
    );
    assert_eq!(
        say(&mut world, "open vault with stick"),
        (true, String::from("Cannot find stick."))
    );
    assert_eq!(
        say(&mut world, "open window with gold key"),
        (true, String::from("Cannot find window."))
    );
}

#[test]
fn open_with_asks_for_missing_names() {
    let mut world = world();
    assert_eq!(
        say(&mut world, "open vault with"),
        (true, String::from("What do you want to use to open?"))
    );
    let tokens = vec![keyword(Keyword::Open), keyword(Keyword::OpenWith)];
    assert_eq!(world.execute(&tokens), (true, String::from("What do you want to open?")));
}

#[test]
fn open_with_on_doors_that_need_no_key() {
    let mut world = world();
    assert_eq!(
        say(&mut world, "open main door with gold key"),
        (true, String::from("You don't need a key to unlock that door."))
    );
    assert_eq!(
        say(&mut world, "open gold key with iron key"),
        (true, String::from("It's already opened."))
    );
    assert_eq!(locked(&world), vec![true, true, false, false]);
}

#[test]
fn open_with_the_key_leaves_the_lock_as_it_is() {
    let mut world = world();
    assert_eq!(
        say(&mut world, "open vault with gold key"),
        (true, String::from("You open the door."))
    );
    assert_eq!(locked(&world), vec![true, true, false, false]);
}

#[test]
fn open_with_compares_the_key_by_its_exact_name() {
    let mut world = Environment::with_objects(vec![
        make_door("Vault", "A heavy vault", true, Some("gold key")),
        make_door("Gold Key", "A small key", false, None),
    ]);
    assert_eq!(
        say(&mut world, "open vault with gold key"),
        (true, String::from("This is not the right key to unlock the door."))
    );
}

#[test]
fn open_a_door_with_itself() {
    let mut world = Environment::with_objects(vec![make_door("Vault", "v", true, Some("Vault"))]);
    assert_eq!(
        say(&mut world, "open vault with vault"),
        (true, String::from("You open the door."))
    );
    assert_eq!(locked(&world), vec![true]);
}

#[test]
fn view_gives_the_description() {
    let mut world = world();
    assert_eq!(say(&mut world, "view vault"), (true, String::from("A heavy vault")));
    assert_eq!(say(&mut world, "view"), (true, String::from("What do you want to view?")));
    assert_eq!(say(&mut world, "view moon"), (true, String::from("Cannot find moon.")));
}

#[test]
fn take_is_not_for_doors() {
    let mut world = world();
    assert_eq!(say(&mut world, "take vault"), (true, String::from("Oops! Cannot take that")));
    assert_eq!(say(&mut world, "take"), (true, String::from("What do you want to take?")));
}

#[test]
fn go_through_a_door() {
    let mut world = world();
    assert_eq!(
        say(&mut world, "go through main door"),
        (true, String::from("## Not implemented yet ##"))
    );
    let tokens = vec![keyword(Keyword::GoThrough)];
    assert_eq!(world.execute(&tokens), (true, String::from("What do you want to go through?")));
}

#[test]
fn every_recognised_list_of_keywords_is_understood() {
    let lines = [
        "quit",
        "help",
        "open main door",
        "open vault with gold key",
        "view vault",
        "take vault",
        "go through vault",
    ];
    for line in lines {
        let mut world = world();
        let (_, text) = say(&mut world, line);
        assert!(!text.contains(NOT_UNDERSTOOD), "{}", line);
    }
}

#[test]
fn every_other_list_of_keywords_is_not_understood() {
    let all = [
        Keyword::Help,
        Keyword::Quit,
        Keyword::Open,
        Keyword::OpenWith,
        Keyword::View,
        Keyword::Take,
        Keyword::GoThrough,
    ];
    let mut lists: Vec<Vec<Keyword>> = vec![vec![], vec![Keyword::OpenWith]];
    for a in all {
        for b in all {
            if !(a == Keyword::Open && b == Keyword::OpenWith) {
                lists.push(vec![a, b]);
            }
            lists.push(vec![a, b, Keyword::Quit]);
        }
    }
    for list in lists {
        let mut tokens: Vec<OutputAction> = list.iter().map(|k| keyword(*k)).collect();
        tokens.push(object("vault"));
        tokens.push(object("gold key"));
        let mut world = world();
        assert_eq!(world.execute(&tokens), (true, String::from(NOT_UNDERSTOOD)), "{:?}", list);
        assert_eq!(locked(&world), vec![true, true, false, false]);
    }
}

#[test]
fn a_trailing_error_is_not_understood() {
    let mut world = world();
    let tokens = vec![keyword(Keyword::Quit), OutputAction::Error];
    assert_eq!(world.execute(&tokens), (true, String::from(NOT_UNDERSTOOD)));
    let tokens = vec![OutputAction::Error, keyword(Keyword::Quit)];
    assert_eq!(world.execute(&tokens), (false, quit_message()));
}

#[test]
fn no_tokens_are_not_understood() {
    let mut world = world();
    assert_eq!(world.execute(&vec![]), (true, String::from(NOT_UNDERSTOOD)));
}

#[test]
fn invoke_calls_the_capability() {
    let mut door = make_door("Gate", "A gate", true, None);
    assert_eq!(invoke(&mut door, Capability::View), Some(String::from("A gate")));
    assert_eq!(invoke(&mut door, Capability::Take), None);
    assert_eq!(invoke(&mut door, Capability::OpenWith), None);
    assert_eq!(invoke(&mut door, Capability::Open), Some(String::from("You open the door.")));
    assert!(!door.is_locked);
    assert_eq!(
        invoke(&mut door, Capability::GoThrough),
        Some(String::from("## Not implemented yet ##"))
    );
}

#[test]
fn the_copy_of_a_door_is_the_door() {
    let door = make_door("Vault", "A heavy vault", true, Some("Gold Key"));
    let copy = BaseObject::clone(&door);
    assert_eq!(copy.name(), "Vault");
    assert_eq!(copy.description(), "A heavy vault");
    assert!(copy.is_locked);
    assert_eq!(copy.locked_by, Some(String::from("Gold Key")));
}

#[test]
fn keywords_and_objects_of_a_line() {
    let tokens = vec![
        keyword(Keyword::Open),
        object("vault"),
        OutputAction::Nothing,
        keyword(Keyword::OpenWith),
        object("gold key"),
    ];
    assert_eq!(get_all_keywords(&tokens), vec![Keyword::Open, Keyword::OpenWith]);
    assert_eq!(get_all_objects(&tokens), vec!["vault", "gold key"]);
    assert_eq!(get_all_keywords(&vec![]), vec![]);
    assert!(get_all_objects(&vec![keyword(Keyword::Help)]).is_empty());
}

#[test]
fn the_command_of_a_line() {
    let machine = StateMachine::build();
    let command = Command::reduce(&machine.parse_line("open vault with gold key")).unwrap();
    assert_eq!(command.keywords, vec![Keyword::Open, Keyword::OpenWith]);
    assert_eq!(command.objects, vec!["vault", "gold key"]);
    assert!(command.status());
    assert_eq!(command.keyword(), Some(Keyword::Open));
    assert!(Command::reduce(&machine.parse_line("fly to the moon")).is_none());
    let again = Command::reduce(&machine.parse_line("open vault with gold key")).unwrap();
    assert_eq!(again.keywords, command.keywords);
    assert_eq!(again.objects, command.objects);
}

#[test]
fn the_text_of_a_command() {
    let none = Command { keywords: vec![], objects: vec![String::from("x")] };
    assert_eq!(none.to_text(), "No keyword defined");
    assert!(!none.status());
    assert_eq!(none.keyword(), None);
    let bare = Command { keywords: vec![Keyword::Quit], objects: vec![] };
    assert_eq!(bare.to_text(), "Keyword: Quit");
    let one = Command { keywords: vec![Keyword::View], objects: vec![String::from("map")] };
    assert_eq!(one.to_text(), "Keyword: View / Objects: 'map'");
    let two = Command {
        keywords: vec![Keyword::Open, Keyword::OpenWith],
        objects: vec![String::from("vault"), String::from("gold key")],
    };
    assert_eq!(two.to_text(), "Keyword: Open / Objects: 'vault', 'gold key'");
}

#[test]
fn the_default_handler_answers_by_keyword() {
    let mut handler = DefaultCommandHandler::new();
    let mut ask = |keywords: Vec<Keyword>| {
        handler.resolve_command(&Command { keywords, objects: vec![] })
    };
    assert_eq!(ask(vec![]), "Don't understand what you want to do?");
    assert_eq!(ask(vec![Keyword::GoThrough]), "Can't go there");
    assert_eq!(ask(vec![Keyword::Help]), "Get a little help to my friends");
    assert_eq!(ask(vec![Keyword::Open]), "Don't know how to open that");
    assert_eq!(ask(vec![Keyword::OpenWith]), "Don't know how to open that");
    assert_eq!(ask(vec![Keyword::Quit]), "Goodbye cruel world!");
    assert_eq!(ask(vec![Keyword::Take]), "Can't take that");
    assert_eq!(ask(vec![Keyword::View]), "Can't see anything");
}

#[test]
fn a_plain_door_opens_once() {
    let mut door = rusty_fortress::universe::Door::new("Gate");
    assert_eq!(door.name(), "Gate");
    assert!(!(door.state == DoorState::Opened));
    assert_eq!(door.open(), "You open the door");
    assert!((door.state == DoorState::Opened));
    assert_eq!(door.open(), "The door is already opened");
    assert!((door.state == DoorState::Opened));
}

#[test]
fn a_plain_door_answers_commands() {
    let mut door = rusty_fortress::universe::Door::new("Gate");
    let take = Command { keywords: vec![Keyword::Take], objects: vec![String::from("gate")] };
    assert_eq!(door.resolve_command(&take), "Can't take that");
    assert!(!(door.state == DoorState::Opened));
    let open = Command { keywords: vec![Keyword::Open], objects: vec![String::from("gate")] };
    assert_eq!(door.resolve_command(&open), "You open the door");
    assert!((door.state == DoorState::Opened));
    let none = Command { keywords: vec![], objects: vec![] };
    assert_eq!(door.resolve_command(&none), "Don't understand what you want to do?");
}

#[test]
fn a_locked_door_wants_its_key() {
    let mut door = LockedDoor::new("Vault", "Gold Key");
    assert_eq!(door.name(), "Vault");
    assert_eq!(door.open(), "The door is locked");
    assert_eq!(door.open_with("Iron Key"), "The door is locked. Try another key");
    assert_eq!(door.open_with("gold key"), "The door is locked. Try another key");
    assert!(!(door.state == DoorState::Opened));
    assert_eq!(door.open_with("Gold Key"), "You open the door");
    assert!((door.state == DoorState::Opened));
    assert_eq!(door.open_with("Iron Key"), "The door is already opened");
    assert_eq!(door.open(), "The door is already opened");
}

#[test]
fn a_locked_door_answers_commands() {
    let mut door = LockedDoor::new("Vault", "");
    let view = Command { keywords: vec![Keyword::View], objects: vec![] };
    assert_eq!(door.resolve_command(&view), "Can't see anything");
    let open = Command { keywords: vec![Keyword::Open], objects: vec![] };
    assert_eq!(door.resolve_command(&open), "The door is locked");
    let wrong = Command { keywords: vec![Keyword::OpenWith], objects: vec![String::from("pin")] };
    assert_eq!(door.resolve_command(&wrong), "The door is locked. Try another key");
    let empty = Command { keywords: vec![Keyword::OpenWith], objects: vec![] };
    assert_eq!(door.resolve_command(&empty), "You open the door");
    assert!((door.state == DoorState::Opened));
}

#[test]
fn actions_of_lines() {
    let machine = StateMachine::build();
    assert_eq!(Action::of(&machine.parse_line("quit now")), Action::Quit);
    assert_eq!(Action::of(&machine.parse_line("?")), Action::Help);
    assert_eq!(Action::of(&machine.parse_line("open door")), Action::Other);
    assert_eq!(Action::of(&machine.parse_line("dance")), Action::Error);
    assert_eq!(Action::of(&vec![]), Action::Error);
    assert_eq!(Action::of(&vec![object("door"), keyword(Keyword::Quit)]), Action::Error);
    assert_eq!(Action::of(&vec![keyword(Keyword::Quit), OutputAction::Error]), Action::Error);
}

#[test]
fn texts_of_actions() {
    assert_eq!(Action::Error.to_text(), "Action::Error");
    assert_eq!(Action::Other.to_text(), "Action::Other");
    assert_eq!(Action::Help.to_text(), "Action::Help");
    assert_eq!(Action::Quit.to_text(), "Action::Quit");
}

#[test]
fn execute_without_a_world() {
    let machine = StateMachine::build();
    assert_eq!(execute(&machine.parse_line("exit")), (false, Some(quit_message())));
    assert_eq!(execute(&machine.parse_line("help me")), (true, Some(help_message())));
    assert_eq!(execute(&machine.parse_line("take lamp")), (true, None));
    assert_eq!(execute(&machine.parse_line("sing")), (true, Some(error_message())));
    assert_eq!(execute(&vec![]), (true, Some(error_message())));
}

#[test]
fn syntax_of_single_actions() {
    let machine = StateMachine::build();
    assert_eq!(analyze_syntax(&machine.parse_line("help")), vec![SyntaxRule::Action(Keyword::Help)]);
    assert_eq!(
        analyze_syntax(&machine.parse_line("take old lamp")),
        vec![SyntaxRule::ActionOnObject(Keyword::Take, String::from("old lamp"))]
    );
    assert_eq!(analyze_syntax(&machine.parse_line("jump")), vec![SyntaxRule::Error]);
    assert_eq!(analyze_syntax(&vec![]), vec![]);
}

#[test]
fn syntax_of_open_with() {
    let machine = StateMachine::build();
    assert_eq!(
        analyze_syntax(&machine.parse_line("open vault with gold key")),
        vec![
            SyntaxRule::ActionOnObject(Keyword::Open, String::from("vault")),
            SyntaxRule::ActionOnObject(Keyword::OpenWith, String::from("gold key")),
        ]
    );
    assert_eq!(
        analyze_syntax(&machine.parse_line("open vault with")),
        vec![
            SyntaxRule::ActionOnObject(Keyword::Open, String::from("vault")),
            SyntaxRule::ActionOnObject(Keyword::OpenWith, String::from("vault")),
        ]
    );
}

#[test]
fn syntax_stops_at_the_empty_token_and_fails_on_an_error() {
    let tokens = vec![keyword(Keyword::View), OutputAction::Nothing, object("map")];
    assert_eq!(analyze_syntax(&tokens), vec![SyntaxRule::Action(Keyword::View)]);
    let tokens = vec![keyword(Keyword::View), object("map"), OutputAction::Error];
    assert_eq!(analyze_syntax(&tokens), vec![SyntaxRule::Error]);
    let tokens = vec![keyword(Keyword::View), OutputAction::Nothing, OutputAction::Error];
    assert_eq!(analyze_syntax(&tokens), vec![SyntaxRule::Action(Keyword::View)]);
    let tokens = vec![object("map"), keyword(Keyword::View), keyword(Keyword::Take)];
    assert_eq!(
        analyze_syntax(&tokens),
        vec![SyntaxRule::Action(Keyword::View), SyntaxRule::Action(Keyword::Take)]
    );
}

#[test]
fn one_entity_commands_step_by_step() {
    let mut world = world();
    let none: Vec<String> = vec![];
    assert_eq!(world.one_obj_fn(&none, "Which one?", Capability::Open, "No way"), "Which one?");
    let ghost = vec![String::from("Ghost")];
    assert_eq!(
        world.one_obj_fn(&ghost, "Which one?", Capability::Open, "No way"),
        "Cannot find Ghost."
    );
    let vault = vec![String::from("VAULT"), String::from("ignored")];
    assert_eq!(world.one_obj_fn(&vault, "Which one?", Capability::Take, "No way"), "No way");
    assert_eq!(world.one_obj_fn(&vault, "Which one?", Capability::OpenWith, "No way"), "No way");
    assert_eq!(
        world.one_obj_fn(&vault, "Which one?", Capability::View, "No way"),
        "A heavy vault"
    );
    assert_eq!(locked(&world), vec![true, true, false, false]);
    let door = vec![String::from("main door")];
    assert_eq!(
        world.one_obj_fn(&door, "Which one?", Capability::Open, "No way"),
        "You open the door."
    );
    assert_eq!(locked(&world), vec![false, true, false, false]);
}

#[test]
fn two_entity_commands_step_by_step() {
    let mut world = world();
    let none: Vec<String> = vec![];
    assert_eq!(world.two_objs_fn(&none, "Which one?", "With what?", "No way"), "Which one?");
    let one = vec![String::from("vault")];
    assert_eq!(world.two_objs_fn(&one, "Which one?", "With what?", "No way"), "With what?");
    let ghost_too = vec![String::from("ghost"), String::from("vault")];
    assert_eq!(
        world.two_objs_fn(&ghost_too, "Which one?", "With what?", "No way"),
        "Cannot find ghost."
    );
    let both_unknown = vec![String::from("ghost"), String::from("spirit")];
    assert_eq!(
        world.two_objs_fn(&both_unknown, "Which one?", "With what?", "No way"),
        "Cannot find ghost."
    );
    let key_unknown = vec![String::from("vault"), String::from("spirit")];
    assert_eq!(
        world.two_objs_fn(&key_unknown, "Which one?", "With what?", "No way"),
        "Cannot find spirit."
    );
    let right = vec![String::from("vault"), String::from("gold key")];
    assert_eq!(
        world.two_objs_fn(&right, "Which one?", "With what?", "No way"),
        "You open the door."
    );
    assert_eq!(locked(&world), vec![true, true, false, false]);
    assert_eq!(world.get(1).unwrap().locked_by, Some(String::from("Gold Key")));
    assert_eq!(world.get(2).unwrap().name, "Gold Key");
}

#[test]
fn commands_never_add_or_remove_entities() {
    let lines = ["open main door", "open vault with gold key", "view vault", "sing", "quit", ""];
    let machine = StateMachine::build();
    let mut world = world();
    for line in lines {
        let _ = turn(&machine, &mut world, line);
        assert_eq!(world.len(), 4);
        let names: Vec<String> = (0..4).map(|i| world.get(i).unwrap().name.clone()).collect();
        assert_eq!(names, vec!["Main Door", "Vault", "Gold Key", "Iron Key"]);
    }
}

#[test]
fn capabilities_at_a_position() {
    let mut world = world();
    assert_eq!(world.one_obj_at(0, Capability::Open, "No way"), "You open the door.");
    assert_eq!(world.one_obj_at(0, Capability::Open, "No way"), "It's already opened.");
    assert_eq!(world.one_obj_at(3, Capability::Take, "No way"), "No way");
    assert_eq!(world.one_obj_at(3, Capability::View, "No way"), "A rusty key");
    assert_eq!(locked(&world), vec![false, true, false, false]);
    assert_eq!(world.two_objs_at(1, 2, "No way"), "You open the door.");
    assert_eq!(
        world.two_objs_at(1, 3, "No way"),
        "This is not the right key to unlock the door."
    );
    assert_eq!(world.two_objs_at(1, 1, "No way"), "This is not the right key to unlock the door.");
    assert_eq!(world.two_objs_at(2, 1, "No way"), "It's already opened.");
    assert_eq!(locked(&world), vec![false, true, false, false]);
}
