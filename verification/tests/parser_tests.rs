use shell_core::ast::{Command, CommandType, CompoundList, SimpleCommand};
use shell_core::parse::{ParseErrorKind, Parser};
use shell_core::token::{Operator, ReservedWord, Token, TokenKind, TokenPosition};

fn pos(line_number: usize, col_number: usize) -> TokenPosition {
    TokenPosition { line_number, col_number }
}

fn word(text: &str, line: usize, start: usize, end: usize) -> Token {
    Token::new(
        TokenKind::Word(text.to_string()),
        pos(line, start),
        pos(line, end),
    )
}

fn op(operator: Operator) -> Token {
    Token::new(TokenKind::Operator(operator), pos(0, 0), pos(0, 0))
}

fn newline() -> Token {
    Token::new(TokenKind::NewLine, pos(0, 0), pos(0, 0))
}

fn parse(tokens: Vec<Token>) -> Result<CompoundList, ParseErrorKind> {
    let mut parser = Parser::new(tokens);
    parser.parse()
}

#[test]
fn test_parse() {
    // the token stream for `ls -l foo`
    let list = parse(vec![
        word("ls", 0, 0, 1),
        word("-l", 0, 3, 4),
        word("foo", 0, 6, 8),
    ])
    .unwrap();
    assert_eq!(
        list,
        CompoundList {
            commands: vec![Command::from(CommandType::SimpleCommand(SimpleCommand {
                assignments: vec![],
                file_redirects: vec![],
                fd_dups: vec![],
                asynchronous: false,
                words: vec![
                    Token::new(
                        TokenKind::Word("ls".to_string()),
                        TokenPosition {
                            line_number: 0,
                            col_number: 0
                        },
                        TokenPosition {
                            line_number: 0,
                            col_number: 1
                        },
                    ),
                    Token::new(
                        TokenKind::Word("-l".to_string()),
                        TokenPosition {
                            line_number: 0,
                            col_number: 3
                        },
                        TokenPosition {
                            line_number: 0,
                            col_number: 4
                        },
                    ),
                    Token::new(
                        TokenKind::Word("foo".to_string()),
                        TokenPosition {
                            line_number: 0,
                            col_number: 6
                        },
                        TokenPosition {
                            line_number: 0,
                            col_number: 8
                        },
                    )
                ]
            }),)]
        }
    );
}

#[test]
fn test_parse_two_lines() {
    // the token stream for `false\ntrue`
    let nl = Token::new(TokenKind::NewLine, pos(0, 5), pos(1, 0));
    let list = parse(vec![word("false", 0, 0, 4), nl, word("true", 1, 0, 3)]).unwrap();
    assert_eq!(
        list,
        CompoundList {
            commands: vec![
                Command::from(CommandType::SimpleCommand(SimpleCommand {
                    assignments: vec![],
                    file_redirects: vec![],
                    fd_dups: vec![],
                    asynchronous: false,
                    words: vec![Token::new(
                        TokenKind::Word("false".to_string()),
                        TokenPosition {
                            line_number: 0,
                            col_number: 0
                        },
                        TokenPosition {
                            line_number: 0,
                            col_number: 4
                        },
                    ),]
                }),),
                Command::from(CommandType::SimpleCommand(SimpleCommand {
                    assignments: vec![],
                    file_redirects: vec![],
                    fd_dups: vec![],
                    asynchronous: false,
                    words: vec![Token::new(
                        TokenKind::Word("true".to_string()),
                        TokenPosition {
                            line_number: 1,
                            col_number: 0
                        },
                        TokenPosition {
                            line_number: 1,
                            col_number: 3
                        },
                    ),]
                }))
            ]
        }
    );
}

#[test]
fn empty_input_is_valid() {
    let list = parse(vec![]).unwrap();
    assert_eq!(list, CompoundList { commands: vec![] });
}

#[test]
fn single_stage_pipeline_collapses_to_bare_command() {
    // one command is never wrapped in a Pipeline node
    let list = parse(vec![word("ls", 0, 0, 1)]).unwrap();
    assert_eq!(list.commands.len(), 1);
    match &list.commands[0].command {
        CommandType::SimpleCommand(sc) => {
            assert_eq!(sc.words.len(), 1);
        }
        other => panic!("expected a bare simple command, got {:?}", other),
    }
}

#[test]
fn and_if_builds_if_with_true_part() {
    // cmd1 && cmd2
    let list = parse(vec![
        word("a", 0, 0, 0),
        op(Operator::AndIf),
        word("b", 0, 5, 5),
    ])
    .unwrap();
    assert_eq!(list.commands.len(), 1);
    match &list.commands[0].command {
        CommandType::If(node) => {
            assert_eq!(node.condition.commands.len(), 1);
            let true_part = node.true_part.as_ref().expect("true_part must be set");
            assert_eq!(true_part.commands.len(), 1);
            assert!(node.false_part.is_none());
            match &true_part.commands[0].command {
                CommandType::SimpleCommand(sc) => {
                    assert_eq!(sc.words[0].kind, TokenKind::Word("b".to_string()));
                }
                other => panic!("expected a simple command, got {:?}", other),
            }
        }
        other => panic!("expected an If node, got {:?}", other),
    }
}

#[test]
fn or_if_builds_if_with_false_part() {
    // cmd1 || cmd2
    let list = parse(vec![
        word("a", 0, 0, 0),
        op(Operator::OrIf),
        word("b", 0, 5, 5),
    ])
    .unwrap();
    match &list.commands[0].command {
        CommandType::If(node) => {
            assert!(node.true_part.is_none());
            let false_part = node.false_part.as_ref().expect("false_part must be set");
            assert_eq!(false_part.commands.len(), 1);
        }
        other => panic!("expected an If node, got {:?}", other),
    }
}

#[test]
fn pipe_with_nothing_following_is_fatal() {
    let pipe = Token::new(TokenKind::Operator(Operator::Pipe), pos(0, 2), pos(0, 2));
    let err = parse(vec![word("a", 0, 0, 0), pipe]).unwrap_err();
    assert_eq!(err, ParseErrorKind::UnexpectedToken(Some(pos(0, 2))));
}

#[test]
fn bang_with_nothing_following_is_fatal() {
    let bang = Token::new(
        TokenKind::ReservedWord(ReservedWord::Bang),
        pos(0, 0),
        pos(0, 0),
    );
    let err = parse(vec![bang]).unwrap_err();
    assert_eq!(err, ParseErrorKind::ExpectedCommandAfterBang);
}

#[test]
fn and_if_with_nothing_following_is_fatal() {
    let err = parse(vec![word("a", 0, 0, 0), op(Operator::AndIf)]).unwrap_err();
    assert_eq!(err, ParseErrorKind::MissingPipelineAfterAndIf);
}

#[test]
fn or_if_with_nothing_following_is_fatal() {
    let err = parse(vec![word("a", 0, 0, 0), op(Operator::OrIf)]).unwrap_err();
    assert_eq!(err, ParseErrorKind::MissingPipelineAfterOrIf);
}

#[test]
fn pipe_after_consumed_ampersand_demands_command() {
    // `a & |` ends the first command at `&`, then commits to a pipe stage
    let err = parse(vec![
        word("a", 0, 0, 0),
        op(Operator::Ampersand),
        op(Operator::Pipe),
    ])
    .unwrap_err();
    assert_eq!(err, ParseErrorKind::ExpectedCommandAfterPipe);
}

#[test]
fn name_token_is_unexpected() {
    let name = Token::new(TokenKind::Name("x".to_string()), pos(0, 4), pos(0, 4));
    let err = parse(vec![word("a", 0, 0, 0), name]).unwrap_err();
    assert_eq!(err, ParseErrorKind::UnexpectedToken(Some(pos(0, 4))));
}

#[test]
fn ampersand_marks_command_asynchronous() {
    // `a & b`: the word collector consumes the `&` and records it on the
    // simple command itself; the second command is synchronous
    let list = parse(vec![
        word("a", 0, 0, 0),
        op(Operator::Ampersand),
        word("b", 0, 4, 4),
    ])
    .unwrap();
    assert_eq!(list.commands.len(), 2);
    match &list.commands[0].command {
        CommandType::SimpleCommand(sc) => assert!(sc.asynchronous),
        other => panic!("expected a simple command, got {:?}", other),
    }
    match &list.commands[1].command {
        CommandType::SimpleCommand(sc) => assert!(!sc.asynchronous),
        other => panic!("expected a simple command, got {:?}", other),
    }
    assert!(!list.commands[1].asynchronous);
}

#[test]
fn semicolon_separates_synchronous_commands() {
    let list = parse(vec![
        word("a", 0, 0, 0),
        op(Operator::Semicolon),
        word("b", 0, 4, 4),
    ])
    .unwrap();
    assert_eq!(list.commands.len(), 2);
    assert!(!list.commands[0].asynchronous);
    assert!(!list.commands[1].asynchronous);
}

#[test]
fn leading_assignment_words_are_collected() {
    // `FOO=bar cmd arg`
    let list = parse(vec![
        word("FOO=bar", 0, 0, 6),
        word("cmd", 0, 8, 10),
        word("arg", 0, 12, 14),
    ])
    .unwrap();
    match &list.commands[0].command {
        CommandType::SimpleCommand(sc) => {
            assert_eq!(sc.assignments.len(), 1);
            assert_eq!(sc.assignments[0].kind, TokenKind::Word("FOO=bar".to_string()));
            assert_eq!(sc.words.len(), 2);
        }
        other => panic!("expected a simple command, got {:?}", other),
    }
}

#[test]
fn assignment_after_command_word_is_plain_word() {
    // `cmd FOO=bar` keeps FOO=bar as an argument
    let list = parse(vec![word("cmd", 0, 0, 2), word("FOO=bar", 0, 4, 10)]).unwrap();
    match &list.commands[0].command {
        CommandType::SimpleCommand(sc) => {
            assert_eq!(sc.assignments.len(), 0);
            assert_eq!(sc.words.len(), 2);
        }
        other => panic!("expected a simple command, got {:?}", other),
    }
}

#[test]
fn assignment_word_shape() {
    assert!(TokenKind::Word("FOO=bar".to_string()).is_assignment_word());
    assert!(TokenKind::Word("FOO=".to_string()).is_assignment_word());
    assert!(TokenKind::Word("_f1=x".to_string()).is_assignment_word());
    assert!(!TokenKind::Word("=x".to_string()).is_assignment_word());
    assert!(!TokenKind::Word("1X=y".to_string()).is_assignment_word());
    assert!(!TokenKind::Word("F-O=y".to_string()).is_assignment_word());
    assert!(!TokenKind::Word("plain".to_string()).is_assignment_word());
    assert!(!TokenKind::Name("FOO=bar".to_string()).is_assignment_word());
}

#[test]
fn trailing_newlines_are_consumed() {
    let list = parse(vec![word("a", 0, 0, 0), newline(), newline()]).unwrap();
    assert_eq!(list.commands.len(), 1);
}

#[test]
fn render_round_trips_plain_command_lists() {
    let make_tokens = || {
        vec![
            word("echo", 0, 0, 3),
            word("hi", 0, 5, 6),
            op(Operator::Semicolon),
            word("ls", 0, 10, 11),
        ]
    };
    let original = parse(make_tokens()).unwrap();
    let expected = parse(make_tokens()).unwrap();
    let rendered = original.render().expect("plain commands must render");
    let reparsed = parse(rendered).unwrap();
    assert_eq!(reparsed, expected);
}

#[test]
fn render_refuses_what_it_cannot_write_back() {
    let conditional = parse(vec![
        word("a", 0, 0, 0),
        op(Operator::AndIf),
        word("b", 0, 5, 5),
    ])
    .unwrap();
    assert!(conditional.render().is_none());
    let background = parse(vec![word("a", 0, 0, 0), op(Operator::Ampersand)]).unwrap();
    assert!(background.render().is_none());
}
