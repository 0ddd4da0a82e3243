use shell_core::ast::{Command, CommandType, CompoundList};
use shell_core::expand::{Aliases, Environment, ExpandError, Expander};
use shell_core::parse::Parser;
use shell_core::token::{Token, TokenKind, TokenPosition};

struct MockExpander {}

impl Expander for MockExpander {
    fn lookup_homedir(
        &self,
        _user: Option<&str>,
        _env: &mut Environment,
    ) -> Result<String, ExpandError> {
        Err(ExpandError::HomedirUnavailable)
    }
}

struct HomeExpander {}

impl Expander for HomeExpander {
    fn lookup_homedir(
        &self,
        user: Option<&str>,
        _env: &mut Environment,
    ) -> Result<String, ExpandError> {
        match user {
            None => Ok("/home/me".to_string()),
            Some(name) => Ok(format!("/home/{}", name)),
        }
    }
}

fn pos(line_number: usize, col_number: usize) -> TokenPosition {
    TokenPosition { line_number, col_number }
}

fn word(text: &str, line: usize, start: usize, end: usize) -> Token {
    Token::new(
        TokenKind::Word(text.to_string()),
        pos(line, start),
        pos(line, end),
    )
}

fn parse(tokens: Vec<Token>) -> CompoundList {
    let mut parser = Parser::new(tokens);
    parser.parse().unwrap()
}

#[test]
fn test_parse_with_alias() {
    // `ls foo` with alias ls -> `ls -l`
    let list = parse(vec![word("ls", 0, 0, 1), word("foo", 0, 3, 5)]);
    let mut aliases = Aliases::new();
    aliases.alias("ls", "ls -l");
    let mut env = Environment::new();
    if let Command {
        command: CommandType::SimpleCommand(cmd),
        ..
    } = &list.commands[0]
    {
        let argv = cmd
            .expand_argv(&mut env, &MockExpander {}, &aliases)
            .unwrap();
        assert_eq!(
            argv,
            vec![
                "ls".to_string(),
                "-l".to_string(),
                "foo".to_string()
            ]
        );
    } else {
        panic!("wrong command type!?");
    }
}

#[test]
fn expansion_excludes_assignments_from_argv() {
    // one assignment word, then two plain words
    let list = parse(vec![
        word("FOO=bar", 0, 0, 6),
        word("echo", 0, 8, 11),
        word("x", 0, 13, 13),
    ]);
    let aliases = Aliases::new();
    let mut env = Environment::new();
    if let Command {
        command: CommandType::SimpleCommand(cmd),
        ..
    } = &list.commands[0]
    {
        assert_eq!(cmd.assignments.len(), 1);
        let argv = cmd
            .expand_argv(&mut env, &MockExpander {}, &aliases)
            .unwrap();
        assert_eq!(argv, vec!["echo".to_string(), "x".to_string()]);
    } else {
        panic!("wrong command type!?");
    }
}

#[test]
fn alias_value_is_field_split() {
    // an alias whose value holds extra blanks still splits into clean fields
    let list = parse(vec![word("x", 0, 0, 0)]);
    let mut aliases = Aliases::new();
    aliases.alias("x", "  a \t b  ");
    let mut env = Environment::new();
    if let Command {
        command: CommandType::SimpleCommand(cmd),
        ..
    } = &list.commands[0]
    {
        let argv = cmd
            .expand_argv(&mut env, &MockExpander {}, &aliases)
            .unwrap();
        assert_eq!(argv, vec!["a".to_string(), "b".to_string()]);
    } else {
        panic!("wrong command type!?");
    }
}

#[test]
fn later_alias_overrides_earlier() {
    let mut aliases = Aliases::new();
    aliases.alias("g", "grep");
    aliases.alias("g", "grep -i");
    let list = parse(vec![word("g", 0, 0, 0)]);
    let mut env = Environment::new();
    if let Command {
        command: CommandType::SimpleCommand(cmd),
        ..
    } = &list.commands[0]
    {
        let argv = cmd
            .expand_argv(&mut env, &MockExpander {}, &aliases)
            .unwrap();
        assert_eq!(argv, vec!["grep".to_string(), "-i".to_string()]);
    } else {
        panic!("wrong command type!?");
    }
}

#[test]
fn second_word_is_not_alias_applied() {
    // the alias rule rewrites only the command word
    let mut aliases = Aliases::new();
    aliases.alias("ls", "ls -l");
    let list = parse(vec![word("echo", 0, 0, 3), word("ls", 0, 5, 6)]);
    let mut env = Environment::new();
    if let Command {
        command: CommandType::SimpleCommand(cmd),
        ..
    } = &list.commands[0]
    {
        let argv = cmd
            .expand_argv(&mut env, &MockExpander {}, &aliases)
            .unwrap();
        assert_eq!(argv, vec!["echo".to_string(), "ls".to_string()]);
    } else {
        panic!("wrong command type!?");
    }
}

#[test]
fn tilde_word_uses_homedir_capability() {
    let list = parse(vec![word("ls", 0, 0, 1), word("~/src", 0, 3, 7)]);
    let aliases = Aliases::new();
    let mut env = Environment::new();
    if let Command {
        command: CommandType::SimpleCommand(cmd),
        ..
    } = &list.commands[0]
    {
        let argv = cmd
            .expand_argv(&mut env, &HomeExpander {}, &aliases)
            .unwrap();
        assert_eq!(argv, vec!["ls".to_string(), "/home/me/src".to_string()]);
        let failed = cmd.expand_argv(&mut env, &MockExpander {}, &aliases);
        assert_eq!(failed, Err(ExpandError::HomedirUnavailable));
    } else {
        panic!("wrong command type!?");
    }
}

#[test]
fn tilde_user_word_passes_the_user_name() {
    let list = parse(vec![word("~alice/doc", 0, 0, 9)]);
    let aliases = Aliases::new();
    let mut env = Environment::new();
    if let Command {
        command: CommandType::SimpleCommand(cmd),
        ..
    } = &list.commands[0]
    {
        let argv = cmd
            .expand_argv(&mut env, &HomeExpander {}, &aliases)
            .unwrap();
        assert_eq!(argv, vec!["/home/alice/doc".to_string()]);
    } else {
        panic!("wrong command type!?");
    }
}
