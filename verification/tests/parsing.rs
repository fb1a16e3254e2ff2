use turma::ArgError;
use turma::Config;
use turma::Instruction;
use turma::RuleError;
use turma::Step;
use turma::parse_rules;
use turma::parse_tape;

#[test]
fn rule_line_parses_into_fields() {
    let ins = Instruction::from_str("A 1 0 L B").unwrap();
    assert_eq!(ins.current, "A");
    assert_eq!(ins.read, '1');
    assert_eq!(ins.write, '0');
    assert_eq!(ins.step, Step::Left);
    assert_eq!(ins.next, "B");
}

#[test]
fn rule_line_takes_first_character_of_symbol_tokens() {
    let ins = Instruction::from_str("STATE 10 25 R HALT").unwrap();
    assert_eq!(ins.current, "STATE");
    assert_eq!(ins.read, '1');
    assert_eq!(ins.write, '2');
    assert_eq!(ins.step, Step::Right);
    assert_eq!(ins.next, "HALT");
}

#[test]
fn rule_line_ignores_extra_tokens() {
    let ins = Instruction::from_str("A 1 0 R HALT trailing junk").unwrap();
    assert_eq!(ins.next, "HALT");
}

#[test]
fn rule_line_accepts_any_whitespace() {
    let ins = Instruction::from_str("  A\t1  0\tR  HALT ").unwrap();
    assert_eq!(ins.current, "A");
    assert_eq!(ins.next, "HALT");
}

#[test]
fn rule_line_missing_next_state_is_rejected() {
    // The field is identified before any machine could be built from it.
    assert_eq!(
        Instruction::from_str("A 1 0 L").unwrap_err(),
        RuleError::MissingNextState
    );
}

#[test]
fn rule_line_missing_fields_are_identified_in_order() {
    assert_eq!(
        Instruction::from_str("").unwrap_err(),
        RuleError::MissingCurrentState
    );
    assert_eq!(
        Instruction::from_str("   ").unwrap_err(),
        RuleError::MissingCurrentState
    );
    assert_eq!(
        Instruction::from_str("A").unwrap_err(),
        RuleError::MissingReadSymbol
    );
    assert_eq!(
        Instruction::from_str("A 1").unwrap_err(),
        RuleError::MissingWriteSymbol
    );
    assert_eq!(
        Instruction::from_str("A 1 0").unwrap_err(),
        RuleError::MissingDirection
    );
}

#[test]
fn rule_line_direction_must_be_l_or_r_exactly() {
    for bad in ["left", "right", "l", "r", "X", "LR"] {
        let line = format!("A 1 0 {} B", bad);
        assert_eq!(
            Instruction::from_str(&line).unwrap_err(),
            RuleError::InvalidDirection
        );
    }
    assert!(Instruction::from_str("A 1 0 L B").is_ok());
    assert!(Instruction::from_str("A 1 0 R B").is_ok());
}

#[test]
fn rule_error_messages_name_the_field() {
    assert_eq!(
        RuleError::MissingCurrentState.message(),
        "did not provide current state"
    );
    assert_eq!(
        RuleError::MissingReadSymbol.message(),
        "did not provide read char"
    );
    assert_eq!(
        RuleError::MissingWriteSymbol.message(),
        "did not provide write char"
    );
    assert_eq!(
        RuleError::MissingDirection.message(),
        "did not provide direction"
    );
    assert_eq!(
        RuleError::InvalidDirection.message(),
        "step is expected to be L or R"
    );
    assert_eq!(
        RuleError::MissingNextState.message(),
        "did not provide next state"
    );
}

#[test]
fn rule_file_parses_line_by_line() {
    let table = parse_rules("A 0 1 R HALT\nA 1 0 L A\n").unwrap();
    assert_eq!(table.len(), 2);
    assert_eq!(table[0].current, "A");
    assert_eq!(table[0].read, '0');
    assert_eq!(table[0].write, '1');
    assert_eq!(table[0].step, Step::Right);
    assert_eq!(table[0].next, "HALT");
    assert_eq!(table[1].step, Step::Left);
    assert_eq!(table[1].next, "A");
}

#[test]
fn rule_file_skips_empty_lines() {
    let table = parse_rules("\nA 0 1 R HALT\n\n\nB 1 1 L A").unwrap();
    assert_eq!(table.len(), 2);
    assert_eq!(table[0].current, "A");
    assert_eq!(table[1].current, "B");
}

#[test]
fn rule_file_accepts_carriage_return_line_endings() {
    let table = parse_rules("A 0 1 R HALT\r\nA 1 0 L A\r\n").unwrap();
    assert_eq!(table.len(), 2);
    assert_eq!(table[1].read, '1');
}

#[test]
fn rule_file_reports_first_malformed_line() {
    let err = parse_rules("A 0 1 R HALT\nbad line\nB 1").unwrap_err();
    assert_eq!(err, RuleError::MissingWriteSymbol);
}

#[test]
fn tape_line_becomes_cells() {
    assert_eq!(parse_tape("1 1 0"), vec!['1', '1', '0']);
}

#[test]
fn tape_tokens_contribute_their_first_character() {
    assert_eq!(parse_tape("  10 0\n"), vec!['1', '0']);
}

#[test]
fn empty_tape_text_gives_empty_tape() {
    assert!(parse_tape("").is_empty());
    assert!(parse_tape(" \n\t ").is_empty());
}

#[test]
fn config_takes_the_two_paths_in_order() {
    let args = vec![
        String::from("prog"),
        String::from("cards.txt"),
        String::from("tape.txt"),
    ];
    let config = Config::build(args).unwrap();
    assert_eq!(config.states_file_path, "cards.txt");
    assert_eq!(config.tape_file_path, "tape.txt");
}

#[test]
fn config_ignores_extra_arguments() {
    let args = vec![
        String::from("prog"),
        String::from("a"),
        String::from("b"),
        String::from("c"),
    ];
    let config = Config::build(args).unwrap();
    assert_eq!(config.states_file_path, "a");
    assert_eq!(config.tape_file_path, "b");
}

#[test]
fn config_reports_which_path_is_missing() {
    let none: Vec<String> = vec![];
    assert_eq!(Config::build(none).unwrap_err(), ArgError::MissingStatesPath);
    assert_eq!(
        Config::build(vec![String::from("prog")]).unwrap_err(),
        ArgError::MissingStatesPath
    );
    assert_eq!(
        Config::build(vec![String::from("prog"), String::from("a")]).unwrap_err(),
        ArgError::MissingTapePath
    );
    assert_eq!(
        ArgError::MissingStatesPath.message(),
        "requires a state table file"
    );
    assert_eq!(ArgError::MissingTapePath.message(), "requires a tape file");
}
