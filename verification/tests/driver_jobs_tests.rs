use shell_core::driver::{
    advance_buffer, is_recoverable_parse_error, prompt_for, DriverDecision, LexError,
    LexErrorKind, ShellError,
};
use shell_core::jobs::{
    init_poll, signals_to_ignore, Coordinator, InitPoll, JobOutcome, ShellSignal,
    TerminalAction,
};
use shell_core::parse::ParseErrorKind;
use shell_core::token::TokenPosition;

fn lex_error(kind: LexErrorKind) -> ShellError {
    ShellError::Lex(LexError {
        kind,
        position: TokenPosition { line_number: 0, col_number: 0 },
    })
}

#[test]
fn unterminated_construct_errors_are_recoverable() {
    let recoverable = [
        LexErrorKind::EofDuringBackslash,
        LexErrorKind::EofDuringComment,
        LexErrorKind::EofDuringSingleQuotedString,
        LexErrorKind::EofDuringDoubleQuotedString,
        LexErrorKind::EofDuringAssignmentWord,
        LexErrorKind::EofDuringCommandSubstitution,
        LexErrorKind::EofDuringParameterExpansion,
    ];
    for kind in recoverable {
        assert!(is_recoverable_parse_error(&lex_error(kind)));
        // stability: asking again gives the same answer
        assert!(is_recoverable_parse_error(&lex_error(kind)));
    }
}

#[test]
fn io_and_parse_errors_are_fatal() {
    assert!(!is_recoverable_parse_error(&lex_error(LexErrorKind::IoError)));
    let parse_errors = [
        ParseErrorKind::UnexpectedToken(None),
        ParseErrorKind::UnexpectedToken(Some(TokenPosition { line_number: 1, col_number: 2 })),
        ParseErrorKind::MissingPipelineAfterAndIf,
        ParseErrorKind::MissingPipelineAfterOrIf,
        ParseErrorKind::ExpectedCommandAfterPipe,
        ParseErrorKind::ExpectedCommandAfterBang,
    ];
    for kind in parse_errors {
        assert!(!is_recoverable_parse_error(&ShellError::Parse(kind)));
        assert!(!is_recoverable_parse_error(&ShellError::Parse(kind)));
    }
}

#[test]
fn success_clears_the_buffer() {
    let (buffer, decision) = advance_buffer("ls -l".to_string(), None);
    assert_eq!(decision, DriverDecision::Committed);
    assert_eq!(buffer, String::new());
}

#[test]
fn recoverable_failure_appends_a_newline_silently() {
    let err = lex_error(LexErrorKind::EofDuringDoubleQuotedString);
    let (buffer, decision) = advance_buffer("echo \"unfinished".to_string(), Some(&err));
    assert_eq!(decision, DriverDecision::ContinueSilently);
    assert_eq!(buffer, "echo \"unfinished\n".to_string());
}

#[test]
fn fatal_failure_reports_and_clears() {
    let err = ShellError::Parse(ParseErrorKind::ExpectedCommandAfterBang);
    let (buffer, decision) = advance_buffer("!".to_string(), Some(&err));
    assert_eq!(decision, DriverDecision::Report);
    assert_eq!(buffer, String::new());
}

#[test]
fn prompts_distinguish_fresh_and_continued_entry() {
    assert_eq!(prompt_for(&String::new()), "$ ");
    assert_eq!(prompt_for(&"echo \"...".to_string()), "..> ");
}

#[test]
fn ignored_signals_spare_child_termination() {
    let signals = signals_to_ignore();
    assert_eq!(
        signals,
        vec![
            ShellSignal::Interrupt,
            ShellSignal::Quit,
            ShellSignal::TerminalStop,
            ShellSignal::TerminalInput,
            ShellSignal::TerminalOutput,
        ]
    );
    assert!(!signals.contains(&ShellSignal::ChildTermination));
}

#[test]
fn init_spins_until_foreground() {
    assert_eq!(init_poll(100, 200), InitPoll::SignalSelfAndRetry);
    assert_eq!(init_poll(100, 100), InitPoll::Proceed);
}

#[test]
fn foreground_job_owns_terminal_only_while_running() {
    let mut coordinator = Coordinator::new(100);
    assert_eq!(coordinator.terminal_owner, 100);
    let action = coordinator.on_dispatch(4242, false);
    assert_eq!(action, TerminalAction::GiveTo(4242));
    assert_eq!(coordinator.terminal_owner, 4242);
    // whatever the outcome, the shell is put back in the foreground
    for outcome in [
        JobOutcome::Exited(0),
        JobOutcome::Exited(3),
        JobOutcome::Signaled(9),
        JobOutcome::Stopped,
    ] {
        let mut c = coordinator;
        let back = c.on_foreground_done(outcome);
        assert_eq!(back, TerminalAction::ReclaimForShell);
        assert_eq!(c.terminal_owner, c.shell_pgid);
    }
}

#[test]
fn background_job_never_receives_the_terminal() {
    let mut coordinator = Coordinator::new(100);
    let action = coordinator.on_dispatch(4242, true);
    assert_eq!(action, TerminalAction::LeaveAlone);
    assert_eq!(coordinator.terminal_owner, 100);
}
