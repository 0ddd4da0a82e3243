//! The incremental parse driver: it owns the accumulating input buffer,
//! chooses the prompt, and classifies a failed attempt at the buffer as
//! "needs more input" (an enumerated lexical truncation) or fatal. Only
//! lexical truncation is recoverable: once a full token stream is there
//! but its grammar is wrong, more lines cannot fix it.

use crate::parse::ParseErrorKind;
use crate::token::TokenPosition;
use vstd::prelude::*;
use vstd::string::StringExecFns;

verus! {

/// The classified lexical errors the token source reports.
#[derive(Debug, Clone, Copy, PartialEq, Eq, Structural)]
pub enum LexErrorKind {
    /// End of input in a backslash continuation.
    EofDuringBackslash,
    /// End of input inside a comment.
    EofDuringComment,
    /// End of input inside a single-quoted string.
    EofDuringSingleQuotedString,
    /// End of input inside a double-quoted string.
    EofDuringDoubleQuotedString,
    /// End of input inside an assignment word.
    EofDuringAssignmentWord,
    /// End of input inside a command substitution.
    EofDuringCommandSubstitution,
    /// End of input inside a parameter expansion.
    EofDuringParameterExpansion,
    /// The input could not be read at all.
    IoError,
}

/// A lexical error with the position it was noticed at.
#[derive(Debug, Clone, Copy, PartialEq, Eq)]
pub struct LexError {
    pub kind: LexErrorKind,
    pub position: TokenPosition,
}

/// Anything one attempt at the accumulated buffer can fail with.
#[derive(Debug, Clone, Copy, PartialEq, Eq)]
pub enum ShellError {
    /// The token source failed.
    Lex(LexError),
    /// The grammar rejected the token stream.
    Parse(ParseErrorKind),
}

/// Whether an error might be resolved by letting the user type more text
/// on a following line: exactly the lexical ran-out-of-input-mid-token
/// kinds are, every lexical read failure and every parse error is not.
pub open spec fn spec_is_recoverable(e: ShellError) -> bool {
    match e {
        ShellError::Lex(lex) => match lex.kind {
            LexErrorKind::EofDuringBackslash => true,
            LexErrorKind::EofDuringComment => true,
            LexErrorKind::EofDuringSingleQuotedString => true,
            LexErrorKind::EofDuringDoubleQuotedString => true,
            LexErrorKind::EofDuringAssignmentWord => true,
            LexErrorKind::EofDuringCommandSubstitution => true,
            LexErrorKind::EofDuringParameterExpansion => true,
            LexErrorKind::IoError => false,
        },
        ShellError::Parse(_) => false,
    }
}

/// Returns true if a given error might be resolved by allowing the user
/// to continue typing more text on a subsequent line. Most lex errors
/// fall into that category.
pub fn is_recoverable_parse_error(e: &ShellError) -> (r: bool)
    ensures
        r == spec_is_recoverable(*e),
{
    match e {
        ShellError::Lex(lex) => match lex.kind {
            LexErrorKind::EofDuringBackslash
            | LexErrorKind::EofDuringComment
            | LexErrorKind::EofDuringSingleQuotedString
            | LexErrorKind::EofDuringDoubleQuotedString
            | LexErrorKind::EofDuringAssignmentWord
            | LexErrorKind::EofDuringCommandSubstitution
            | LexErrorKind::EofDuringParameterExpansion => true,
            LexErrorKind::IoError => false,
        },
        ShellError::Parse(_) => false,
    }
}

/// Recoverability is total and stable: every error value is classified,
/// the enumerated unterminated-construct lexical errors are exactly the
/// recoverable ones, and the classification is a function of the error
/// value alone, so seeing an error again cannot change it.
pub proof fn lemma_recoverability_total_and_stable(e: ShellError)
    ensures
        spec_is_recoverable(e) <==> (e matches ShellError::Lex(lex) && !(lex.kind
            is IoError)),
{
}

/// What the driver does with the buffer after one attempt at it.
#[derive(Debug, Clone, Copy, PartialEq, Eq, Structural)]
pub enum DriverDecision {
    /// The buffer ran as a complete program: it is cleared, and the run's
    /// resulting environment becomes the persistent state.
    Committed,
    /// A recoverable truncation: the buffer grows a newline and the loop
    /// goes on silently, showing only the continuation prompt.
    ContinueSilently,
    /// A fatal error: it is reported together with the input that caused
    /// it, and the buffer is cleared.
    Report,
}

/// Decide what one attempt at the buffer means, and produce the buffer the
/// next iteration starts from: success and fatal errors clear it, a
/// recoverable truncation keeps it and appends the newline the user's
/// line break stood for.
pub fn advance_buffer(buffer: String, error: Option<&ShellError>) -> (r: (String, DriverDecision))
    ensures
        match error {
            None => r.1 == DriverDecision::Committed && r.0@ == Seq::<char>::empty(),
            Some(e) => {
                if spec_is_recoverable(*e) {
                    r.1 == DriverDecision::ContinueSilently && r.0@ == buffer@.push('\n')
                } else {
                    r.1 == DriverDecision::Report && r.0@ == Seq::<char>::empty()
                }
            },
        },
{
    match error {
        None => (String::new(), DriverDecision::Committed),
        Some(e) => {
            if is_recoverable_parse_error(e) {
                let mut grown = buffer;
                grown.append("\n");
                proof {
                    reveal_strlit("\n");
                    assert(grown@ =~= buffer@.push('\n'));
                }
                (grown, DriverDecision::ContinueSilently)
            } else {
                (String::new(), DriverDecision::Report)
            }
        },
    }
}

/// The primary prompt, shown when the buffer is empty.
pub fn primary_prompt() -> (r: &'static str)
    ensures
        r@ == "$ "@,
{
    "$ "
}

/// The continuation prompt, shown while a recoverable truncation waits
/// for more input.
pub fn continuation_prompt() -> (r: &'static str)
    ensures
        r@ == "..> "@,
{
    "..> "
}

/// The prompt for the buffer's state: the primary prompt on a fresh entry,
/// the continuation prompt while more input is awaited. The two are never
/// the same text, so the user can always tell the states apart.
pub fn prompt_for(buffer: &String) -> (r: &'static str)
    ensures
        buffer@.len() == 0 ==> r@ == "$ "@,
        buffer@.len() > 0 ==> r@ == "..> "@,
        "$ "@ != "..> "@,
{
    proof {
        reveal_strlit("$ ");
        reveal_strlit("..> ");
        assert("$ "@.len() == 2);
        assert("..> "@.len() == 4);
    }
    if buffer.as_str().is_empty() {
        primary_prompt()
    } else {
        continuation_prompt()
    }
}

} // verus!
