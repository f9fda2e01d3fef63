use rusty_fortress::parser::{InputAction, Keyword, OutputAction, State, StateAction, StateMachine, StateRule};
use rusty_fortress::text::{names_match, same_text, tokenize};

fn words(line: &str) -> Vec<String> {
    tokenize(line)
}

fn object(text: &str) -> OutputAction {
    OutputAction::Object(String::from(text))
}

fn parse(line: &str) -> Vec<OutputAction> {
    StateMachine::build().parse_line(line)
}

#[test]
fn tokenize_splits_on_single_spaces() {
    assert_eq!(words("open door with key"), vec!["open", "door", "with", "key"]);
}

#[test]
fn tokenize_puts_words_in_lowercase() {
    assert_eq!(words("Open The MAIN Door"), vec!["open", "the", "main", "door"]);
}

#[test]
fn tokenize_trims_the_line() {
    assert_eq!(words("  \t quit \n"), vec!["quit"]);
}

#[test]
fn tokenize_of_an_empty_line_is_one_empty_word() {
    assert_eq!(words(""), vec![""]);
    assert_eq!(words("   "), vec![""]);
}

#[test]
fn tokenize_keeps_empty_words_between_two_spaces() {
    assert_eq!(words("open  door"), vec!["open", "", "door"]);
}

#[test]
fn tokenize_splits_on_spaces_only() {
    assert_eq!(words("open\tdoor now"), vec!["open\tdoor", "now"]);
}

#[test]
fn tokenize_handles_letters_beyond_ascii() {
    assert_eq!(words("ÖFFNE TÜR"), vec!["öffne", "tür"]);
}

#[test]
fn tokenize_is_idempotent_on_its_output() {
    let lines = ["Open The  Main Door", "  QUIT ", "", "go through Ärger", "a \t b"];
    for line in lines {
        let first = words(line);
        let joined = first.join(" ");
        assert_eq!(words(&joined), first);
    }
}

#[test]
fn same_text_compares_exactly() {
    assert!(same_text("door", "door"));
    assert!(!same_text("door", "Door"));
    assert!(!same_text("door", "doors"));
}

#[test]
fn same_name_ignores_case() {
    assert!(names_match("Main Door", "main door"));
    assert!(names_match("MAIN DOOR", "Main door"));
    assert!(!names_match("Main Door", "main  door"));
}

#[test]
fn parse_help_and_its_other_word() {
    assert_eq!(parse("help"), vec![OutputAction::Keyword(Keyword::Help)]);
    assert_eq!(parse("?"), vec![OutputAction::Keyword(Keyword::Help)]);
}

#[test]
fn parse_quit_and_exit() {
    assert_eq!(parse("quit"), vec![OutputAction::Keyword(Keyword::Quit)]);
    assert_eq!(parse("exit"), vec![OutputAction::Keyword(Keyword::Quit)]);
    assert_eq!(parse("EXIT"), vec![OutputAction::Keyword(Keyword::Quit)]);
}

#[test]
fn parse_view_and_take_with_an_object() {
    assert_eq!(parse("view old map"), vec![OutputAction::Keyword(Keyword::View), object("old map")]);
    assert_eq!(parse("take lamp"), vec![OutputAction::Keyword(Keyword::Take), object("lamp")]);
}

#[test]
fn parse_open_merges_the_words_of_a_name() {
    assert_eq!(
        parse("open the red door"),
        vec![OutputAction::Keyword(Keyword::Open), object("the red door")]
    );
}

#[test]
fn parse_open_with_gives_two_objects() {
    assert_eq!(
        parse("open vault with gold key"),
        vec![
            OutputAction::Keyword(Keyword::Open),
            object("vault"),
            OutputAction::Keyword(Keyword::OpenWith),
            object("gold key"),
        ]
    );
}

#[test]
fn parse_open_with_nothing_after_with() {
    assert_eq!(
        parse("open vault with"),
        vec![
            OutputAction::Keyword(Keyword::Open),
            object("vault"),
            OutputAction::Keyword(Keyword::OpenWith),
        ]
    );
}

#[test]
fn parse_with_is_an_object_word_after_other_verbs() {
    assert_eq!(
        parse("view door with key"),
        vec![OutputAction::Keyword(Keyword::View), object("door with key")]
    );
}

#[test]
fn parse_second_with_is_an_object_word() {
    assert_eq!(
        parse("open a with b with c"),
        vec![
            OutputAction::Keyword(Keyword::Open),
            object("a"),
            OutputAction::Keyword(Keyword::OpenWith),
            object("b with c"),
        ]
    );
}

#[test]
fn parse_go_through() {
    assert_eq!(
        parse("go through main door"),
        vec![OutputAction::Keyword(Keyword::GoThrough), object("main door")]
    );
}

#[test]
fn parse_go_without_through_is_an_error() {
    assert_eq!(parse("go"), vec![OutputAction::Error]);
    assert_eq!(parse("go north"), vec![OutputAction::Error]);
}

#[test]
fn parse_unknown_verb_is_an_error() {
    assert_eq!(parse("fly to the moon"), vec![OutputAction::Error]);
    assert_eq!(parse("door open"), vec![OutputAction::Error]);
}

#[test]
fn parse_empty_line_is_an_error() {
    assert_eq!(parse(""), vec![OutputAction::Error]);
    assert_eq!(parse("    "), vec![OutputAction::Error]);
}

#[test]
fn parse_stops_at_an_empty_word() {
    assert_eq!(parse("open  door"), vec![OutputAction::Keyword(Keyword::Open)]);
    assert_eq!(
        parse("view red  door"),
        vec![OutputAction::Keyword(Keyword::View), object("red")]
    );
}

#[test]
fn parse_never_emits_the_empty_token() {
    let lines = ["", "help", "open a with b", "go through x", "go", "nonsense here", "take  it"];
    for line in lines {
        let output = parse(line);
        assert!(!output.is_empty());
        for token in output.iter() {
            assert_ne!(*token, OutputAction::Nothing);
        }
    }
}

#[test]
fn parse_twice_gives_the_same_tokens() {
    let machine = StateMachine::build();
    let lines = ["open vault with gold key", "fly to the moon", "", "GO through  x"];
    for line in lines {
        assert_eq!(machine.parse_line(line), machine.parse_line(line));
        assert_eq!(machine.parse_line(line), StateMachine::build().parse_line(line));
    }
}

#[test]
fn find_by_name_gives_the_place_of_a_state() {
    let machine = StateMachine::build();
    assert_eq!(machine.find_by_name("initial_state"), Some(0));
    assert_eq!(machine.find_by_name("unknown_state"), Some(7));
    assert_eq!(machine.find_by_name("i_openwith"), Some(3));
    assert_eq!(machine.find_by_name("no_such_state"), None);
    assert_eq!(machine.find_by_name("Initial_State"), None);
}

#[test]
fn merge_joins_neighbouring_objects() {
    let machine = StateMachine::build();
    let merged = machine.mix_output_state(vec![object("a"), object("b"), object("c")]);
    assert_eq!(merged, vec![object("a b c")]);
}

#[test]
fn merge_does_not_cross_other_tokens() {
    let machine = StateMachine::build();
    let merged = machine.mix_output_state(vec![
        object("a"),
        object("b"),
        OutputAction::Keyword(Keyword::OpenWith),
        object("c"),
        OutputAction::Error,
        OutputAction::Nothing,
        object("d"),
        object("e"),
    ]);
    assert_eq!(
        merged,
        vec![
            object("a b"),
            OutputAction::Keyword(Keyword::OpenWith),
            object("c"),
            OutputAction::Error,
            OutputAction::Nothing,
            object("d e"),
        ]
    );
}

#[test]
fn merge_keeps_empty_texts_as_words() {
    let machine = StateMachine::build();
    assert_eq!(machine.mix_output_state(vec![object("")]), vec![object("")]);
    assert_eq!(machine.mix_output_state(vec![object(""), object("a")]), vec![object(" a")]);
    assert_eq!(machine.mix_output_state(vec![object("a"), object("")]), vec![object("a ")]);
}

#[test]
fn merge_of_nothing_is_nothing() {
    let machine = StateMachine::build();
    assert_eq!(machine.mix_output_state(vec![]), vec![]);
}

#[test]
fn state_takes_its_first_rule_for_a_word() {
    let state = State::build("s")
        .add_rule(StateRule::keyword_rule("open", "t", Keyword::Open))
        .add_rule(StateRule::keyword_rule("open", "u", Keyword::Take))
        .set_default_rule(StateRule::default_rule().set_next_input().set_object_output());
    let (jump, input, emit) = state.next_state("open");
    assert!(matches!(jump, StateAction::Move(name) if name == "t"));
    assert_eq!(input, InputAction::Next);
    assert_eq!(emit, OutputAction::Keyword(Keyword::Open));
}

#[test]
fn state_falls_back_to_its_default_rule() {
    let state = State::build("s")
        .add_rule(StateRule::keyword_rule("open", "t", Keyword::Open))
        .set_default_rule(StateRule::default_rule().set_next_input().set_object_output());
    let (jump, input, emit) = state.next_state("Lamp");
    assert!(matches!(jump, StateAction::Keep));
    assert_eq!(input, InputAction::Next);
    assert_eq!(emit, object("Lamp"));
}

#[test]
fn rules_end_and_fail() {
    let state = State::build("s").set_default_rule(StateRule::end_rule());
    let (jump, input, emit) = state.next_state("x");
    assert!(matches!(jump, StateAction::End));
    assert_eq!(input, InputAction::Keep);
    assert_eq!(emit, OutputAction::Nothing);
    let state = State::build("s").set_default_rule(StateRule::error_rule());
    let (jump, _, emit) = state.next_state("x");
    assert!(matches!(jump, StateAction::End));
    assert_eq!(emit, OutputAction::Error);
}

#[test]
fn texts_of_keywords_tokens_and_states() {
    assert_eq!(Keyword::OpenWith.to_text(), "With");
    assert_eq!(Keyword::GoThrough.to_text(), "GoThrough");
    assert_eq!(OutputAction::Nothing.to_text(), "OutputAction::None");
    assert_eq!(OutputAction::Error.to_text(), "OutputAction::Error");
    assert_eq!(OutputAction::Keyword(Keyword::Help).to_text(), "OutputAction::Keyword: Help");
    assert_eq!(object("red door").to_text(), "OutputAction::Object: red door");
    assert_eq!(State::build("i_open").to_text(), "State: i_open");
}

#[test]
fn state_actions_are_equal_by_what_they_hold() {
    assert!(StateAction::Keep == StateAction::Keep);
    assert!(StateAction::End == StateAction::End);
    assert!(StateAction::Move(String::from("a")) == StateAction::Move(String::from("a")));
    assert!(StateAction::Move(String::from("a")) != StateAction::Move(String::from("b")));
    assert!(StateAction::Keep != StateAction::End);
    assert!(StateAction::Move(String::from("a")) != StateAction::Keep);
}

#[test]
fn tokens_are_equal_by_what_they_hold() {
    assert!(object("a") == object("a"));
    assert!(object("a") != object("A"));
    assert!(OutputAction::Keyword(Keyword::Open) != OutputAction::Keyword(Keyword::OpenWith));
    assert!(OutputAction::Nothing != OutputAction::Error);
    assert!(object("a").clone() == object("a"));
    assert!(matches!(StateAction::Move(String::from("s")).clone(), StateAction::Move(name) if name == "s"));
}

#[test]
fn the_reading_of_lines() {
    let cases: [(&str, Vec<OutputAction>); 6] = [
        ("take  the lamp", vec![OutputAction::Keyword(Keyword::Take)]),
        ("open with key", vec![OutputAction::Keyword(Keyword::Open), OutputAction::Keyword(Keyword::OpenWith), object("key")]),
        ("open a  with b", vec![OutputAction::Keyword(Keyword::Open), object("a")]),
        ("go through", vec![OutputAction::Keyword(Keyword::GoThrough)]),
        ("go  through door", vec![OutputAction::Error]),
        ("WITH", vec![OutputAction::Error]),
    ];
    for (line, expected) in cases {
        assert_eq!(parse(line), expected, "{}", line);
    }
}

#[test]
fn parse_words_takes_the_words_as_they_are() {
    let machine = StateMachine::build();
    let line = |words: &[&str]| words.iter().map(|w| String::from(*w)).collect::<Vec<String>>();
    assert_eq!(
        machine.parse_words(&line(&["open", "Red", "Door"])),
        vec![OutputAction::Keyword(Keyword::Open), object("Red Door")]
    );
    assert_eq!(machine.parse_words(&line(&["Open", "door"])), vec![OutputAction::Error]);
    assert_eq!(machine.parse_words(&line(&[])), vec![OutputAction::Error]);
    assert_eq!(
        machine.parse_words(&line(&["view", "a b", "c"])),
        vec![OutputAction::Keyword(Keyword::View), object("a b c")]
    );
    assert_eq!(
        machine.parse_words(&line(&["go", "through", "gate", "", "now"])),
        vec![OutputAction::Keyword(Keyword::GoThrough), object("gate")]
    );
}
