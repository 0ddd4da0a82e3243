//! The typed tokens that the lexer hands to the parser: kinds, source
//! positions, and the assignment-word shape test used to classify the
//! leading words of a simple command.

use vstd::prelude::*;
use vstd::string::StrSliceExecFns;

verus! {

/// A position in the source text, as the lexer reports it.
#[derive(Clone, Copy, PartialEq, Eq, Structural, Debug)]
pub struct TokenPosition {
    pub line_number: usize,
    pub col_number: usize,
}

/// The operators the grammar distinguishes.
#[derive(Clone, Copy, PartialEq, Eq, Structural, Debug)]
pub enum Operator {
    /// `|`
    Pipe,
    /// `&`
    Ampersand,
    /// `;`
    Semicolon,
    /// `&&`
    AndIf,
    /// `||`
    OrIf,
}

/// Reserved words the grammar recognizes; the negation marker is the one
/// this grammar subset consumes.
#[derive(Clone, Copy, PartialEq, Eq, Structural, Debug)]
pub enum ReservedWord {
    /// `!`
    Bang,
}

/// The kind of a token, carrying the literal text for word-like kinds.
#[derive(Clone, PartialEq, Eq, Debug)]
pub enum TokenKind {
    Word(String),
    Name(String),
    ReservedWord(ReservedWord),
    Operator(Operator),
    NewLine,
    Eof,
}

/// One token: a kind plus the source span it was read from.
#[derive(Clone, PartialEq, Eq, Debug)]
pub struct Token {
    pub kind: TokenKind,
    pub start: TokenPosition,
    pub end: TokenPosition,
}

impl Token {
    /// Build a token from its parts.
    pub fn new(kind: TokenKind, start: TokenPosition, end: TokenPosition) -> (t: Token)
        ensures
            t == (Token { kind, start, end }),
    {
        Token { kind, start, end }
    }

    /// The token an exhausted stream yields, over and over.
    pub fn end_of_stream() -> (t: Token)
        ensures
            t == end_of_stream_token(),
    {
        Token {
            kind: TokenKind::Eof,
            start: TokenPosition { line_number: 0, col_number: 0 },
            end: TokenPosition { line_number: 0, col_number: 0 },
        }
    }

    /// Whether this token is the given reserved word.
    pub fn is_reserved_word(&self, word: ReservedWord) -> (r: bool)
        ensures
            r == self.spec_is_reserved_word(word),
    {
        match &self.kind {
            TokenKind::ReservedWord(w) => *w == word,
            _ => false,
        }
    }

    pub open spec fn spec_is_reserved_word(&self, word: ReservedWord) -> bool {
        match self.kind {
            TokenKind::ReservedWord(w) => w == word,
            _ => false,
        }
    }
}

/// The token value that stands for end of stream.
pub open spec fn end_of_stream_token() -> Token {
    Token {
        kind: TokenKind::Eof,
        start: TokenPosition { line_number: 0, col_number: 0 },
        end: TokenPosition { line_number: 0, col_number: 0 },
    }
}

/// A character that may start a NAME: a letter or underscore.
pub open spec fn is_name_start_char(c: char) -> bool {
    c == '_' || ('a' <= c && c <= 'z') || ('A' <= c && c <= 'Z')
}

/// A character that may continue a NAME: a letter, digit or underscore.
pub open spec fn is_name_char(c: char) -> bool {
    is_name_start_char(c) || ('0' <= c && c <= '9')
}

/// A valid NAME: nonempty, starting with a letter or underscore, all
/// characters letters, digits or underscores.
pub open spec fn is_valid_name(s: Seq<char>) -> bool {
    &&& s.len() > 0
    &&& is_name_start_char(s[0])
    &&& forall|i: int| 0 <= i < s.len() ==> is_name_char(#[trigger] s[i])
}

/// The assignment-word shape `NAME=value`: a valid NAME followed by `=`,
/// with an arbitrary (possibly empty) value after it.
pub open spec fn assignment_word_shape(s: Seq<char>) -> bool {
    exists|i: int| 0 <= i < s.len() && s[i] == '=' && is_valid_name(s.subrange(0, i))
}

/// Whether a token kind is a word whose text has the assignment shape.
pub open spec fn spec_is_assignment_word(k: TokenKind) -> bool {
    match k {
        TokenKind::Word(s) => assignment_word_shape(s@),
        _ => false,
    }
}

fn exec_is_name_start_char(c: char) -> (r: bool)
    ensures
        r == is_name_start_char(c),
{
    c == '_' || ('a' <= c && c <= 'z') || ('A' <= c && c <= 'Z')
}

fn exec_is_name_char(c: char) -> (r: bool)
    ensures
        r == is_name_char(c),
{
    exec_is_name_start_char(c) || ('0' <= c && c <= '9')
}

/// Whether a string has the assignment-word shape.
fn str_is_assignment_word(s: &str) -> (r: bool)
    ensures
        r == assignment_word_shape(s@),
{
    let n = s.unicode_len();
    let mut i: usize = 0;
    loop
        invariant
            n == s@.len(),
            i <= n,
            forall|j: int| 0 <= j < i ==> #[trigger] s@[j] != '=' && is_name_char(s@[j]),
            i > 0 ==> is_name_start_char(s@[0]),
        decreases n - i,
    {
        if i >= n {
            // no `=` anywhere: not an assignment word
            assert(!assignment_word_shape(s@)) by {
                assert forall|k: int| 0 <= k < s@.len() implies #[trigger] s@[k] != '=' by {}
            }
            return false;
        }
        let c = s.get_char(i);
        if c == '=' {
            if i >= 1 {
                assert(assignment_word_shape(s@)) by {
                    let name = s@.subrange(0, i as int);
                    assert(name[0] == s@[0]);
                    assert(forall|j: int|
                        0 <= j < name.len() ==> #[trigger] name[j] == s@[j]);
                    assert(is_valid_name(name));
                    assert(s@[i as int] == '=');
                }
                return true;
            } else {
                // `=` first: there is no nonempty name before any `=`
                assert(!assignment_word_shape(s@)) by {
                    assert forall|k: int|
                        0 <= k < s@.len() && s@[k] == '=' implies !is_valid_name(
                        s@.subrange(0, k),
                    ) by {
                        if k > 0 {
                            assert(s@.subrange(0, k)[0] == s@[0]);
                            assert(s@[0] == '=');
                            assert(!is_name_start_char('='));
                        }
                    }
                }
                return false;
            }
        }
        let name_ok = if i == 0 {
            exec_is_name_start_char(c)
        } else {
            exec_is_name_char(c)
        };
        if !name_ok {
            // the character at `i` can belong to no NAME, and no `=` was
            // seen before it, so no split point can be valid
            assert(!assignment_word_shape(s@)) by {
                assert forall|k: int|
                    0 <= k < s@.len() && s@[k] == '=' implies !is_valid_name(
                    s@.subrange(0, k),
                ) by {
                    if k <= i {
                        if k == i {
                            assert(s@[k] != '=');
                        }
                    } else {
                        let name = s@.subrange(0, k);
                        if i == 0 {
                            assert(name[0] == s@[0]);
                        } else {
                            assert(name[i as int] == s@[i as int]);
                            assert(!is_name_char(name[i as int]));
                        }
                    }
                }
            }
            return false;
        }
        i = i + 1;
    }
}

impl TokenKind {
    /// Whether this kind is a word whose text has the `NAME=value` shape;
    /// the leading tokens of a simple command that pass this test are
    /// collected as assignments rather than words.
    pub fn is_assignment_word(&self) -> (r: bool)
        ensures
            r == spec_is_assignment_word(*self),
    {
        match self {
            TokenKind::Word(text) => str_is_assignment_word(text.as_str()),
            _ => false,
        }
    }
}

} // verus!
