//! The shell-grammar parser: a recursive-descent engine with one-token
//! lookahead. The grammar (list, and_or, pipeline, pipe_sequence, command,
//! simple_command, separators) is first written down as spec functions over
//! the token sequence; the executable parser is proved to return exactly
//! what those functions say, token for token.

use crate::ast::{
    cmd_view, cmds_view, collapse_pipeline, Command, CommandType, CommandTypeView, CommandView,
    CompoundList, If, IfView, Pipeline, PipelineView, SimpleCommand, SimpleCommandView,
};
use crate::token::{
    end_of_stream_token, spec_is_assignment_word, Operator, ReservedWord, Token, TokenKind,
    TokenPosition,
};
use vstd::prelude::*;

verus! {

broadcast use {crate::ast::lemma_cmds_view_len, crate::ast::lemma_cmds_view_index};

/// The classified fatal parse errors; each carries the offending token's
/// source position when one is available.
#[derive(Debug, Clone, Copy, PartialEq, Eq)]
pub enum ParseErrorKind {
    /// A token no production can begin or continue with.
    UnexpectedToken(Option<TokenPosition>),
    /// `&&` with no pipeline after it.
    MissingPipelineAfterAndIf,
    /// `||` with no pipeline after it.
    MissingPipelineAfterOrIf,
    /// `|` with no command after it.
    ExpectedCommandAfterPipe,
    /// `!` with no command after it.
    ExpectedCommandAfterBang,
}

/// Whether `;`/newline or `&` ended a command list element.
#[derive(Debug, Clone, Copy, PartialEq, Eq, Structural)]
pub enum Separator {
    Sync,
    Async,
}

/// What one grammar production did with the token sequence: matched and
/// produced a value, legitimately did not match, or failed fatally.
pub ghost enum ParseStep<T> {
    /// The production matched; the remaining tokens follow the value.
    Found(T, Seq<Token>),
    /// The production did not match; parsing may go on at the returned
    /// sequence (usually the input itself, but a consumed end-of-stream or
    /// `&` token is gone).
    Absent(Seq<Token>),
    /// The production committed to a prefix and could not complete.
    Fail(ParseErrorKind),
}

/// The next token and the rest: an exhausted stream yields the
/// end-of-stream token, over and over.
pub open spec fn spec_next(s: Seq<Token>) -> (Token, Seq<Token>) {
    if s.len() == 0 {
        (end_of_stream_token(), s)
    } else {
        (s[0], s.subrange(1, s.len() as int))
    }
}

/// A token kind that carries no text; the parser peeks only at these.
pub open spec fn plain_kind(k: TokenKind) -> bool {
    match k {
        TokenKind::Operator(_) => true,
        TokenKind::NewLine => true,
        TokenKind::Eof => true,
        _ => false,
    }
}

/// Consume the next token when it has the given kind, else leave the
/// sequence as it was.
pub open spec fn spec_token_is(s: Seq<Token>, k: TokenKind) -> (bool, Seq<Token>) {
    let (t, rest) = spec_next(s);
    if t.kind == k {
        (true, rest)
    } else {
        (false, s)
    }
}

/// Consume the next token when it is the given reserved word, else leave
/// the sequence as it was.
pub open spec fn spec_token_is_reserved_word(s: Seq<Token>, w: ReservedWord) -> (bool, Seq<
    Token,
>) {
    let (t, rest) = spec_next(s);
    if t.spec_is_reserved_word(w) {
        (true, rest)
    } else {
        (false, s)
    }
}

/// Consume a run of newlines; the flag says whether there was at least one.
pub open spec fn spec_newline_list(s: Seq<Token>) -> (bool, Seq<Token>)
    decreases s.len(),
{
    let (is_nl, rest) = spec_token_is(s, TokenKind::NewLine);
    if is_nl {
        (true, spec_newline_list(rest).1)
    } else {
        (false, s)
    }
}

/// An optional run of newlines; never fails, consumes what is there.
pub open spec fn spec_linebreak(s: Seq<Token>) -> Seq<Token> {
    spec_newline_list(s).1
}

/// Consume a `;` or `&` separator operator if one is next.
pub open spec fn spec_separator_op(s: Seq<Token>) -> (Option<Separator>, Seq<Token>) {
    let (t, rest) = spec_next(s);
    match t.kind {
        TokenKind::Operator(Operator::Semicolon) => (Some(Separator::Sync), rest),
        TokenKind::Operator(Operator::Ampersand) => (Some(Separator::Async), rest),
        _ => (None, s),
    }
}

/// Consume a separator: a `;`/`&` followed by optional newlines, or a run
/// of newlines alone (which counts as a synchronous separator).
pub open spec fn spec_separator(s: Seq<Token>) -> (Option<Separator>, Seq<Token>) {
    let (op, s1) = spec_separator_op(s);
    match op {
        Some(sep) => (Some(sep), spec_linebreak(s1)),
        None => {
            let (saw, s2) = spec_newline_list(s);
            if saw {
                (Some(Separator::Sync), s2)
            } else {
                (None, s)
            }
        },
    }
}

/// Whether the separator that follows (if any) is `&`.
pub open spec fn spec_separator_is_async(s: Seq<Token>) -> (bool, Seq<Token>) {
    let (sep, s1) = spec_separator(s);
    (sep == Some(Separator::Async), s1)
}

/// The word-collecting loop of a simple command, with its accumulators.
pub ghost enum WordsOutcome {
    Done {
        assignments: Seq<Token>,
        words: Seq<Token>,
        asynchronous: bool,
        rest: Seq<Token>,
    },
    Fail(ParseErrorKind),
}

/// Collect the tokens of one simple command, greedily, until a delimiter:
/// end-of-stream and `&` are consumed (the latter marking the command
/// asynchronous); `;`, newline, `&&` and `||` are left for the caller; a
/// leading word of assignment shape joins the assignments while no plain
/// word has been seen; any other token kind is a fatal error.
pub open spec fn spec_simple_command_words(
    s: Seq<Token>,
    assignments: Seq<Token>,
    words: Seq<Token>,
) -> WordsOutcome
    decreases s.len(),
{
    let (t, rest) = spec_next(s);
    match t.kind {
        TokenKind::Eof => WordsOutcome::Done { assignments, words, asynchronous: false, rest },
        TokenKind::Operator(Operator::Ampersand) => WordsOutcome::Done {
            assignments,
            words,
            asynchronous: true,
            rest,
        },
        TokenKind::Operator(Operator::Semicolon) => WordsOutcome::Done {
            assignments,
            words,
            asynchronous: false,
            rest: s,
        },
        TokenKind::NewLine => WordsOutcome::Done {
            assignments,
            words,
            asynchronous: false,
            rest: s,
        },
        TokenKind::Operator(Operator::AndIf) => WordsOutcome::Done {
            assignments,
            words,
            asynchronous: false,
            rest: s,
        },
        TokenKind::Operator(Operator::OrIf) => WordsOutcome::Done {
            assignments,
            words,
            asynchronous: false,
            rest: s,
        },
        TokenKind::Word(_) => {
            if words.len() == 0 && spec_is_assignment_word(t.kind) {
                spec_simple_command_words(rest, assignments.push(t), words)
            } else {
                spec_simple_command_words(rest, assignments, words.push(t))
            }
        },
        _ => WordsOutcome::Fail(ParseErrorKind::UnexpectedToken(Some(t.start))),
    }
}

/// Parse one simple command: absent when no assignment and no word was
/// collected (so a bare separator yields no spurious empty command).
pub open spec fn spec_simple_command(s: Seq<Token>) -> ParseStep<SimpleCommandView> {
    match spec_simple_command_words(s, Seq::empty(), Seq::empty()) {
        WordsOutcome::Done { assignments, words, asynchronous, rest } => {
            if assignments.len() == 0 && words.len() == 0 {
                ParseStep::Absent(rest)
            } else {
                ParseStep::Found(
                    SimpleCommandView {
                        assignments,
                        file_redirects: Seq::empty(),
                        fd_dups: Seq::empty(),
                        words,
                        asynchronous,
                    },
                    rest,
                )
            }
        },
        WordsOutcome::Fail(e) => ParseStep::Fail(e),
    }
}

/// Parse one command: in this grammar subset it resolves only to a simple
/// command, wrapped synchronously and with no redirects at this level.
pub open spec fn spec_command(s: Seq<Token>) -> ParseStep<CommandView> {
    match spec_simple_command(s) {
        ParseStep::Found(sc, rest) => ParseStep::Found(
            CommandView {
                asynchronous: false,
                command: CommandTypeView::SimpleCommand(sc),
                redirects: None,
            },
            rest,
        ),
        ParseStep::Absent(rest) => ParseStep::Absent(rest),
        ParseStep::Fail(e) => ParseStep::Fail(e),
    }
}

/// The rest of the loop of `spec_newline_list` consumes no more than the
/// input holds.
pub proof fn lemma_newline_list_len(s: Seq<Token>)
    ensures
        spec_newline_list(s).1.len() <= s.len(),
    decreases s.len(),
{
    let (is_nl, rest) = spec_token_is(s, TokenKind::NewLine);
    if is_nl {
        lemma_newline_list_len(rest);
    }
}

/// The word-collecting loop never lengthens the sequence, and consumes at
/// least one token whenever it grows an accumulator.
pub proof fn lemma_words_len(s: Seq<Token>, assignments: Seq<Token>, words: Seq<Token>)
    ensures
        match spec_simple_command_words(s, assignments, words) {
            WordsOutcome::Done { assignments: a2, words: w2, rest, .. } => {
                &&& rest.len() <= s.len()
                &&& (a2.len() + w2.len() > assignments.len() + words.len() ==> rest.len()
                    < s.len())
            },
            WordsOutcome::Fail(_) => true,
        },
    decreases s.len(),
{
    let (t, rest) = spec_next(s);
    match t.kind {
        TokenKind::Word(_) => {
            if words.len() == 0 && spec_is_assignment_word(t.kind) {
                lemma_words_len(rest, assignments.push(t), words);
            } else {
                lemma_words_len(rest, assignments, words.push(t));
            }
        },
        _ => {},
    }
}

/// A simple command that matches consumes at least one token; one that is
/// absent consumes at most the delimiter that ended it.
pub proof fn lemma_simple_command_len(s: Seq<Token>)
    ensures
        match spec_simple_command(s) {
            ParseStep::Found(_, rest) => rest.len() < s.len(),
            ParseStep::Absent(rest) => rest.len() <= s.len(),
            ParseStep::Fail(_) => true,
        },
{
    lemma_words_len(s, Seq::empty(), Seq::empty());
}

/// As `lemma_simple_command_len`, one level up.
pub proof fn lemma_command_len(s: Seq<Token>)
    ensures
        match spec_command(s) {
            ParseStep::Found(_, rest) => rest.len() < s.len(),
            ParseStep::Absent(rest) => rest.len() <= s.len(),
            ParseStep::Fail(_) => true,
        },
{
    lemma_simple_command_len(s);
}

/// The stage-collecting loop of a pipeline: while a `|` is next, skip
/// linebreaks and demand another command, failing fatally when none
/// follows.
pub open spec fn spec_pipe_sequence_rest(s: Seq<Token>, stages: Seq<CommandView>) -> ParseStep<
    Seq<CommandView>,
>
    decreases s.len(),
{
    let (is_pipe, s1) = spec_token_is(s, TokenKind::Operator(Operator::Pipe));
    if is_pipe {
        let s2 = spec_linebreak(s1);
        match spec_command(s2) {
            ParseStep::Found(c, s3) => {
                proof {
                    lemma_newline_list_len(s1);
                    lemma_command_len(s2);
                }
                spec_pipe_sequence_rest(s3, stages.push(c))
            },
            ParseStep::Absent(_) => ParseStep::Fail(ParseErrorKind::ExpectedCommandAfterPipe),
            ParseStep::Fail(e) => ParseStep::Fail(e),
        }
    } else {
        ParseStep::Found(stages, s)
    }
}

/// Parse the ordered stages of a pipeline: one command, then the `|` loop.
pub open spec fn spec_pipe_sequence(s: Seq<Token>) -> ParseStep<Seq<CommandView>> {
    match spec_command(s) {
        ParseStep::Found(c, s1) => spec_pipe_sequence_rest(s1, seq![c]),
        ParseStep::Absent(rest) => ParseStep::Absent(rest),
        ParseStep::Fail(e) => ParseStep::Fail(e),
    }
}

/// The stage loop never lengthens the sequence.
pub proof fn lemma_pipe_rest_len(s: Seq<Token>, stages: Seq<CommandView>)
    ensures
        match spec_pipe_sequence_rest(s, stages) {
            ParseStep::Found(_, rest) => rest.len() <= s.len(),
            ParseStep::Absent(rest) => rest.len() <= s.len(),
            ParseStep::Fail(_) => true,
        },
    decreases s.len(),
{
    let (is_pipe, s1) = spec_token_is(s, TokenKind::Operator(Operator::Pipe));
    if is_pipe {
        let s2 = spec_linebreak(s1);
        lemma_newline_list_len(s1);
        lemma_command_len(s2);
        match spec_command(s2) {
            ParseStep::Found(c, s3) => {
                lemma_pipe_rest_len(s3, stages.push(c));
            },
            _ => {},
        }
    }
}

/// A pipe sequence that matches consumes at least one token.
pub proof fn lemma_pipe_sequence_len(s: Seq<Token>)
    ensures
        match spec_pipe_sequence(s) {
            ParseStep::Found(_, rest) => rest.len() < s.len(),
            ParseStep::Absent(rest) => rest.len() <= s.len(),
            ParseStep::Fail(_) => true,
        },
{
    lemma_command_len(s);
    match spec_command(s) {
        ParseStep::Found(c, s1) => {
            lemma_pipe_rest_len(s1, seq![c]);
        },
        _ => {},
    }
}

/// Parse a pipeline: an optional leading `!`, then a pipe sequence; a `!`
/// followed by nothing is a fatal error.
pub open spec fn spec_pipeline(s: Seq<Token>) -> ParseStep<PipelineView> {
    let (inverted, s1) = spec_token_is_reserved_word(s, ReservedWord::Bang);
    match spec_pipe_sequence(s1) {
        ParseStep::Found(stages, s2) => ParseStep::Found(
            PipelineView { inverted, commands: stages },
            s2,
        ),
        ParseStep::Absent(rest) => {
            if inverted {
                ParseStep::Fail(ParseErrorKind::ExpectedCommandAfterBang)
            } else {
                ParseStep::Absent(rest)
            }
        },
        ParseStep::Fail(e) => ParseStep::Fail(e),
    }
}

/// A pipeline that matches consumes at least one token.
pub proof fn lemma_pipeline_len(s: Seq<Token>)
    ensures
        match spec_pipeline(s) {
            ParseStep::Found(_, rest) => rest.len() < s.len(),
            ParseStep::Absent(rest) => rest.len() <= s.len(),
            ParseStep::Fail(_) => true,
        },
{
    let (inverted, s1) = spec_token_is_reserved_word(s, ReservedWord::Bang);
    lemma_pipe_sequence_len(s1);
}

/// The conditional shorthand: after `cmd &&` (or `cmd ||`), skip
/// linebreaks and demand a pipeline; wrap both sides as one-element lists
/// in an `If` node, populating `true_part` for `&&` and `false_part` for
/// `||`, never both.
pub open spec fn spec_pipeline_conditional(
    condition: PipelineView,
    is_and: bool,
    s: Seq<Token>,
) -> ParseStep<CommandView> {
    let s1 = spec_linebreak(s);
    match spec_pipeline(s1) {
        ParseStep::Found(p2, s2) => {
            let then = seq![collapse_pipeline(p2)];
            let cond = seq![collapse_pipeline(condition)];
            ParseStep::Found(
                CommandView {
                    asynchronous: false,
                    command: CommandTypeView::If(
                        IfView {
                            condition: cond,
                            true_part: if is_and {
                                Some(then)
                            } else {
                                None
                            },
                            false_part: if is_and {
                                None
                            } else {
                                Some(then)
                            },
                        },
                    ),
                    redirects: None,
                },
                s2,
            )
        },
        ParseStep::Absent(_) => ParseStep::Fail(
            if is_and {
                ParseErrorKind::MissingPipelineAfterAndIf
            } else {
                ParseErrorKind::MissingPipelineAfterOrIf
            },
        ),
        ParseStep::Fail(e) => ParseStep::Fail(e),
    }
}

/// Parse an and_or: a pipeline, optionally continued by `&&` or `||` into
/// a conditional; a lone pipeline collapses to a bare command.
pub open spec fn spec_and_or(s: Seq<Token>) -> ParseStep<CommandView> {
    match spec_pipeline(s) {
        ParseStep::Found(p, s1) => {
            let (is_and, s2) = spec_token_is(s1, TokenKind::Operator(Operator::AndIf));
            if is_and {
                spec_pipeline_conditional(p, true, s2)
            } else {
                let (is_or, s3) = spec_token_is(s1, TokenKind::Operator(Operator::OrIf));
                if is_or {
                    spec_pipeline_conditional(p, false, s3)
                } else {
                    ParseStep::Found(collapse_pipeline(p), s1)
                }
            }
        },
        ParseStep::Absent(rest) => ParseStep::Absent(rest),
        ParseStep::Fail(e) => ParseStep::Fail(e),
    }
}

/// An and_or that matches consumes at least one token.
pub proof fn lemma_and_or_len(s: Seq<Token>)
    ensures
        match spec_and_or(s) {
            ParseStep::Found(_, rest) => rest.len() < s.len(),
            ParseStep::Absent(rest) => rest.len() <= s.len(),
            ParseStep::Fail(_) => true,
        },
{
    lemma_pipeline_len(s);
    match spec_pipeline(s) {
        ParseStep::Found(p, s1) => {
            let (is_and, s2) = spec_token_is(s1, TokenKind::Operator(Operator::AndIf));
            let (is_or, s3) = spec_token_is(s1, TokenKind::Operator(Operator::OrIf));
            lemma_newline_list_len(s2);
            lemma_newline_list_len(s3);
            lemma_pipeline_len(spec_linebreak(s2));
            lemma_pipeline_len(spec_linebreak(s3));
        },
        _ => {},
    }
}

/// A separator consumes tokens, never adds them.
pub proof fn lemma_separator_len(s: Seq<Token>)
    ensures
        spec_separator(s).1.len() <= s.len(),
        spec_separator_is_async(s).1.len() <= s.len(),
{
    let (op, s1) = spec_separator_op(s);
    lemma_newline_list_len(s1);
    lemma_newline_list_len(s);
}

/// The top-level list loop: collect and_or commands, resolving each
/// trailing separator and setting the command's `asynchronous` flag from
/// whether it was `&`, until no further and_or matches.
pub open spec fn spec_parse_rest(s: Seq<Token>, acc: Seq<CommandView>) -> Result<
    (Seq<CommandView>, Seq<Token>),
    ParseErrorKind,
>
    decreases s.len(),
{
    match spec_and_or(s) {
        ParseStep::Found(c, s1) => {
            let (is_async, s2) = spec_separator_is_async(s1);
            proof {
                lemma_and_or_len(s);
                lemma_separator_len(s1);
            }
            spec_parse_rest(s2, acc.push(CommandView { asynchronous: is_async, ..c }))
        },
        ParseStep::Absent(rest) => Ok((acc, rest)),
        ParseStep::Fail(e) => Err(e),
    }
}

/// Parse a whole input: one and_or must be found unless the stream is at
/// its end (empty input is valid); then the list loop runs. A missing
/// and_or on a stream not at end-of-stream is an unexpected-token error.
pub open spec fn spec_parse(s: Seq<Token>) -> Result<
    (Seq<CommandView>, Seq<Token>),
    ParseErrorKind,
> {
    match spec_and_or(s) {
        ParseStep::Found(c, s1) => {
            let (is_async, s2) = spec_separator_is_async(s1);
            spec_parse_rest(s2, seq![CommandView { asynchronous: is_async, ..c }])
        },
        ParseStep::Absent(rest) => {
            let (is_eof, s1) = spec_token_is(rest, TokenKind::Eof);
            if is_eof {
                Ok((Seq::empty(), s1))
            } else {
                Err(ParseErrorKind::UnexpectedToken(None))
            }
        },
        ParseStep::Fail(e) => Err(e),
    }
}


/// The parser state: the not-yet-consumed tokens of the stream, plus a
/// single-slot lookahead buffer holding at most one pushed-back token.
/// Its view is the sequence of remaining tokens, lookahead first.
pub struct Parser {
    tokens: Vec<Token>,
    lookahead: Option<Token>,
}

impl View for Parser {
    type V = Seq<Token>;

    closed spec fn view(&self) -> Seq<Token> {
        match self.lookahead {
            Some(t) => seq![t] + self.tokens@,
            None => self.tokens@,
        }
    }
}

impl Parser {
    /// No remaining token carries the end-of-stream kind: the stream ends
    /// where the token vector ends, and the parser yields the
    /// end-of-stream token itself from there on.
    pub closed spec fn wf(&self) -> bool {
        &&& forall|i: int|
            0 <= i < self.tokens@.len() ==> !((#[trigger] self.tokens@[i]).kind is Eof)
        &&& match self.lookahead {
            Some(t) => !(t.kind is Eof),
            None => true,
        }
    }

    /// A parser over the given token stream. End of stream is where the
    /// vector ends; no token of the vector itself may be the end-of-stream
    /// marker.
    pub fn new(tokens: Vec<Token>) -> (p: Parser)
        requires
            forall|i: int| 0 <= i < tokens@.len() ==> !((#[trigger] tokens@[i]).kind is Eof),
        ensures
            p@ == tokens@,
            p.wf(),
    {
        Parser { tokens, lookahead: None }
    }

    /// Take the buffered token if one is there, else the next stream
    /// token; an exhausted stream yields the end-of-stream token, over and
    /// over, consuming nothing.
    fn next_token(&mut self) -> (t: Token)
        requires
            old(self).wf(),
        ensures
            ({
                let (st, rest) = spec_next(old(self)@);
                t == st && final(self)@ == rest
            }),
            final(self).wf(),
            final(self).lookahead is None,
            t.kind is Eof ==> old(self)@.len() == 0,
    {
        match self.lookahead.take() {
            Some(tok) => {
                proof {
                    assert(old(self)@ == seq![tok] + self.tokens@);
                    assert(old(self)@[0] == tok);
                    assert(old(self)@.subrange(1, old(self)@.len() as int) =~= self.tokens@);
                }
                tok
            },
            None => {
                if self.tokens.len() > 0 {
                    let t = self.tokens.remove(0);
                    proof {
                        assert(old(self)@.remove(0) =~= old(self)@.subrange(
                            1,
                            old(self)@.len() as int,
                        ));
                    }
                    t
                } else {
                    Token::end_of_stream()
                }
            },
        }
    }

    /// Push one token back into the lookahead slot, which must be empty:
    /// pushing back a second token before consuming the first is a
    /// grammar-function bug, not a user-facing error. Pushing back the
    /// synthesized end-of-stream token puts nothing in the slot; the
    /// exhausted stream yields it again by itself.
    fn unget_token(&mut self, tok: Token)
        requires
            old(self).wf(),
            old(self).lookahead is None,
            tok.kind is Eof ==> old(self)@.len() == 0,
        ensures
            final(self).wf(),
            final(self)@ == if tok.kind is Eof {
                old(self)@
            } else {
                seq![tok] + old(self)@
            },
    {
        match tok.kind {
            TokenKind::Eof => {},
            _ => {
                self.lookahead = Some(tok);
            },
        }
    }

    /// Consume the next token exactly when it has the given (text-free)
    /// kind.
    fn next_token_is(&mut self, kind: &TokenKind) -> (r: bool)
        requires
            old(self).wf(),
            plain_kind(*kind),
        ensures
            ({
                let (b, rest) = spec_token_is(old(self)@, *kind);
                r == b && final(self)@ == rest
            }),
            final(self).wf(),
    {
        let t = self.next_token();
        let same = match (&t.kind, kind) {
            (TokenKind::Operator(a), TokenKind::Operator(b)) => *a == *b,
            (TokenKind::NewLine, TokenKind::NewLine) => true,
            (TokenKind::Eof, TokenKind::Eof) => true,
            _ => false,
        };
        if same {
            true
        } else {
            self.unget_token(t);
            proof {
                if old(self)@.len() > 0 {
                    assert(seq![old(self)@[0]] + old(self)@.subrange(
                        1,
                        old(self)@.len() as int,
                    ) =~= old(self)@);
                }
            }
            false
        }
    }

    /// Consume the next token exactly when it is the given reserved word.
    fn next_token_is_reserved_word(&mut self, word: ReservedWord) -> (r: bool)
        requires
            old(self).wf(),
        ensures
            ({
                let (b, rest) = spec_token_is_reserved_word(old(self)@, word);
                r == b && final(self)@ == rest
            }),
            final(self).wf(),
    {
        let t = self.next_token();
        if t.is_reserved_word(word) {
            true
        } else {
            self.unget_token(t);
            proof {
                if old(self)@.len() > 0 {
                    assert(seq![old(self)@[0]] + old(self)@.subrange(
                        1,
                        old(self)@.len() as int,
                    ) =~= old(self)@);
                }
            }
            false
        }
    }

    /// Consume a `;` or `&` separator operator if one is next.
    fn separator_op(&mut self) -> (r: Option<Separator>)
        requires
            old(self).wf(),
        ensures
            ({
                let (sep, rest) = spec_separator_op(old(self)@);
                r == sep && final(self)@ == rest
            }),
            final(self).wf(),
    {
        let t = self.next_token();
        match t.kind {
            TokenKind::Operator(Operator::Semicolon) => Some(Separator::Sync),
            TokenKind::Operator(Operator::Ampersand) => Some(Separator::Async),
            _ => {
                self.unget_token(t);
                proof {
                    if old(self)@.len() > 0 {
                        assert(seq![old(self)@[0]] + old(self)@.subrange(
                            1,
                            old(self)@.len() as int,
                        ) =~= old(self)@);
                    }
                }
                None
            },
        }
    }

    /// Consume a run of newlines; true when there was at least one.
    fn newline_list(&mut self) -> (r: bool)
        requires
            old(self).wf(),
        ensures
            ({
                let (b, rest) = spec_newline_list(old(self)@);
                r == b && final(self)@ == rest
            }),
            final(self).wf(),
    {
        let mut saw = false;
        loop
            invariant
                self.wf(),
                spec_newline_list(old(self)@).0 == (saw || spec_newline_list(self@).0),
                spec_newline_list(old(self)@).1 == spec_newline_list(self@).1,
            ensures
                self.wf(),
                spec_newline_list(old(self)@).0 == (saw || spec_newline_list(self@).0),
                spec_newline_list(old(self)@).1 == spec_newline_list(self@).1,
                !spec_token_is(self@, TokenKind::NewLine).0,
            decreases self@.len(),
        {
            if !self.next_token_is(&TokenKind::NewLine) {
                break ;
            }
            saw = true;
        }
        saw
    }

    /// An optional run of newlines; absence is a valid outcome.
    fn linebreak(&mut self)
        requires
            old(self).wf(),
        ensures
            final(self)@ == spec_linebreak(old(self)@),
            final(self).wf(),
    {
        self.newline_list();
    }

    /// Consume a separator: `;`/`&` plus optional newlines, or a newline
    /// run alone, which counts as a synchronous separator.
    fn separator(&mut self) -> (r: Option<Separator>)
        requires
            old(self).wf(),
        ensures
            ({
                let (sep, rest) = spec_separator(old(self)@);
                r == sep && final(self)@ == rest
            }),
            final(self).wf(),
    {
        match self.separator_op() {
            Some(sep) => {
                self.linebreak();
                Some(sep)
            },
            None => {
                if self.newline_list() {
                    Some(Separator::Sync)
                } else {
                    None
                }
            },
        }
    }

    /// Whether the separator that follows (if any) is `&`.
    fn separator_is_async(&mut self) -> (r: bool)
        requires
            old(self).wf(),
        ensures
            ({
                let (b, rest) = spec_separator_is_async(old(self)@);
                r == b && final(self)@ == rest
            }),
            final(self).wf(),
    {
        match self.separator() {
            Some(Separator::Async) => true,
            _ => false,
        }
    }
}


impl Parser {
    /// Parse one simple command: consume tokens greedily until a
    /// delimiter, classifying leading assignment-shaped words as
    /// assignments; absent when nothing was collected.
    fn simple_command(&mut self) -> (r: Result<Option<SimpleCommand>, ParseErrorKind>)
        requires
            old(self).wf(),
        ensures
            final(self).wf(),
            match spec_simple_command(old(self)@) {
                ParseStep::Found(v, rest) => r matches Ok(Some(sc)) && sc@ == v && final(self)@ == rest,
                ParseStep::Absent(rest) => r == Ok::<Option<SimpleCommand>, ParseErrorKind>(None)
                    && final(self)@ == rest,
                ParseStep::Fail(e) => r == Err::<Option<SimpleCommand>, ParseErrorKind>(e),
            },
    {
        let mut assignments: Vec<Token> = Vec::new();
        let mut words: Vec<Token> = Vec::new();
        let mut asynchronous = false;
        loop
            invariant_except_break
                self.wf(),
                asynchronous == false,
                spec_simple_command_words(old(self)@, Seq::empty(), Seq::empty())
                    == spec_simple_command_words(self@, assignments@, words@),
            ensures
                self.wf(),
                spec_simple_command_words(old(self)@, Seq::empty(), Seq::empty()) == (
                WordsOutcome::Done {
                    assignments: assignments@,
                    words: words@,
                    asynchronous,
                    rest: self@,
                }),
            decreases self@.len(),
        {
            let ghost pre = self@;
            let token = self.next_token();
            match token.kind {
                TokenKind::Eof => {
                    break ;
                },
                TokenKind::Operator(Operator::Ampersand) => {
                    asynchronous = true;
                    break ;
                },
                TokenKind::Operator(Operator::Semicolon)
                | TokenKind::NewLine
                | TokenKind::Operator(Operator::AndIf)
                | TokenKind::Operator(Operator::OrIf) => {
                    self.unget_token(token);
                    proof {
                        assert(seq![pre[0]] + pre.subrange(1, pre.len() as int) =~= pre);
                    }
                    break ;
                },
                TokenKind::Word(_) => {
                    if words.is_empty() && token.kind.is_assignment_word() {
                        assignments.push(token);
                    } else {
                        words.push(token);
                    }
                },
                _ => {
                    return Err(ParseErrorKind::UnexpectedToken(Some(token.start)));
                },
            }
        }
        if assignments.is_empty() && words.is_empty() {
            return Ok(None);
        }
        Ok(
            Some(
                SimpleCommand {
                    assignments,
                    file_redirects: Vec::new(),
                    fd_dups: Vec::new(),
                    words,
                    asynchronous,
                },
            ),
        )
    }

    /// Parse one command; this grammar subset resolves it only to a simple
    /// command, wrapped synchronously with no redirects at this level.
    fn command(&mut self) -> (r: Result<Option<Command>, ParseErrorKind>)
        requires
            old(self).wf(),
        ensures
            final(self).wf(),
            match spec_command(old(self)@) {
                ParseStep::Found(cv, rest) => r matches Ok(Some(c)) && c@ == cv && final(self)@ == rest,
                ParseStep::Absent(rest) => r == Ok::<Option<Command>, ParseErrorKind>(None)
                    && final(self)@ == rest,
                ParseStep::Fail(e) => r == Err::<Option<Command>, ParseErrorKind>(e),
            },
    {
        match self.simple_command() {
            Ok(Some(command)) => Ok(
                Some(
                    Command {
                        command: CommandType::SimpleCommand(command),
                        asynchronous: false,
                        redirects: None,
                    },
                ),
            ),
            Ok(None) => Ok(None),
            Err(e) => Err(e),
        }
    }

    /// Parse the stages of a pipeline: one command, then, while a `|` is
    /// next, skip linebreaks and demand another command.
    fn pipe_sequence(&mut self) -> (r: Result<Option<Vec<Command>>, ParseErrorKind>)
        requires
            old(self).wf(),
        ensures
            final(self).wf(),
            match spec_pipe_sequence(old(self)@) {
                ParseStep::Found(stages, rest) => r matches Ok(Some(v)) && cmds_view(v@) == stages
                    && final(self)@ == rest,
                ParseStep::Absent(rest) => r == Ok::<Option<Vec<Command>>, ParseErrorKind>(None)
                    && final(self)@ == rest,
                ParseStep::Fail(e) => r == Err::<Option<Vec<Command>>, ParseErrorKind>(e),
            },
    {
        let first = match self.command() {
            Err(e) => {
                return Err(e);
            },
            Ok(None) => {
                return Ok(None);
            },
            Ok(Some(cmd)) => cmd,
        };
        let mut commands: Vec<Command> = Vec::new();
        commands.push(first);
        proof {
            assert(cmds_view(commands@) =~= seq![cmd_view(commands@[0])]);
        }
        loop
            invariant_except_break
                self.wf(),
                spec_pipe_sequence(old(self)@) == spec_pipe_sequence_rest(
                    self@,
                    cmds_view(commands@),
                ),
            ensures
                self.wf(),
                spec_pipe_sequence(old(self)@) == ParseStep::Found(
                    cmds_view(commands@),
                    self@,
                ),
            decreases self@.len(),
        {
            let ghost pre = self@;
            if !self.next_token_is(&TokenKind::Operator(Operator::Pipe)) {
                break ;
            }
            let ghost s1 = self@;
            self.linebreak();
            let ghost s2 = self@;
            proof {
                lemma_newline_list_len(s1);
                lemma_command_len(s2);
            }
            match self.command() {
                Err(e) => {
                    return Err(e);
                },
                Ok(None) => {
                    return Err(ParseErrorKind::ExpectedCommandAfterPipe);
                },
                Ok(Some(cmd)) => {
                    let ghost prev = cmds_view(commands@);
                    commands.push(cmd);
                    proof {
                        assert(cmds_view(commands@) =~= prev.push(cmd_view(cmd)));
                    }
                },
            }
        }
        Ok(Some(commands))
    }

    /// Parse a pipeline: an optional leading `!`, then a pipe sequence; a
    /// `!` followed by no command is a fatal error.
    fn pipeline(&mut self) -> (r: Result<Option<Pipeline>, ParseErrorKind>)
        requires
            old(self).wf(),
        ensures
            final(self).wf(),
            match spec_pipeline(old(self)@) {
                ParseStep::Found(pv, rest) => r matches Ok(Some(p)) && p@ == pv && final(self)@ == rest,
                ParseStep::Absent(rest) => r == Ok::<Option<Pipeline>, ParseErrorKind>(None)
                    && final(self)@ == rest,
                ParseStep::Fail(e) => r == Err::<Option<Pipeline>, ParseErrorKind>(e),
            },
    {
        let inverted = self.next_token_is_reserved_word(ReservedWord::Bang);
        match self.pipe_sequence() {
            Err(e) => Err(e),
            Ok(Some(commands)) => Ok(Some(Pipeline { inverted, commands })),
            Ok(None) => {
                if inverted {
                    Err(ParseErrorKind::ExpectedCommandAfterBang)
                } else {
                    Ok(None)
                }
            },
        }
    }

    /// After `cmd && ` or `cmd || `: skip linebreaks, demand the following
    /// pipeline, and build the `If` node with `condition` wrapping the
    /// first pipeline and exactly one branch wrapping the second.
    fn pipeline_conditional(&mut self, condition: Pipeline, op: Operator) -> (r: Result<
        Option<Command>,
        ParseErrorKind,
    >)
        requires
            old(self).wf(),
            op == Operator::AndIf || op == Operator::OrIf,
        ensures
            final(self).wf(),
            match spec_pipeline_conditional(condition@, op == Operator::AndIf, old(self)@) {
                ParseStep::Found(cv, rest) => r matches Ok(Some(c)) && c@ == cv && final(self)@ == rest,
                ParseStep::Absent(rest) => false,
                ParseStep::Fail(e) => r == Err::<Option<Command>, ParseErrorKind>(e),
            },
    {
        self.linebreak();
        let pl = match self.pipeline() {
            Err(e) => {
                return Err(e);
            },
            Ok(None) => {
                return Err(
                    if op == Operator::AndIf {
                        ParseErrorKind::MissingPipelineAfterAndIf
                    } else {
                        ParseErrorKind::MissingPipelineAfterOrIf
                    },
                );
            },
            Ok(Some(p)) => p,
        };
        let then_part = CompoundList::from(Command::from_pipeline(pl));
        let condition_list = CompoundList::from(Command::from_pipeline(condition));
        let is_and = op == Operator::AndIf;
        let (true_part, false_part) = if is_and {
            (Some(then_part), None)
        } else {
            (None, Some(then_part))
        };
        Ok(
            Some(
                Command::from(
                    CommandType::If(
                        If { condition: condition_list, true_part, false_part },
                    ),
                ),
            ),
        )
    }

    /// Parse an and_or: a pipeline, optionally continued by `&&` or `||`
    /// into a conditional; a lone pipeline collapses to a bare command.
    fn and_or(&mut self) -> (r: Result<Option<Command>, ParseErrorKind>)
        requires
            old(self).wf(),
        ensures
            final(self).wf(),
            match spec_and_or(old(self)@) {
                ParseStep::Found(cv, rest) => r matches Ok(Some(c)) && c@ == cv && final(self)@ == rest,
                ParseStep::Absent(rest) => r == Ok::<Option<Command>, ParseErrorKind>(None)
                    && final(self)@ == rest,
                ParseStep::Fail(e) => r == Err::<Option<Command>, ParseErrorKind>(e),
            },
    {
        match self.pipeline() {
            Err(e) => Err(e),
            Ok(None) => Ok(None),
            Ok(Some(pipeline)) => {
                if self.next_token_is(&TokenKind::Operator(Operator::AndIf)) {
                    self.pipeline_conditional(pipeline, Operator::AndIf)
                } else if self.next_token_is(&TokenKind::Operator(Operator::OrIf)) {
                    self.pipeline_conditional(pipeline, Operator::OrIf)
                } else {
                    Ok(Some(Command::from_pipeline(pipeline)))
                }
            },
        }
    }

    /// Parse the whole stream into a command list. Empty input is valid
    /// and yields the empty list; a stream that starts with no command and
    /// is not at end-of-stream is an unexpected-token error; each
    /// command's `asynchronous` flag records whether `&` separated it from
    /// what follows.
    pub fn parse(&mut self) -> (r: Result<CompoundList, ParseErrorKind>)
        requires
            old(self).wf(),
        ensures
            final(self).wf(),
            match spec_parse(old(self)@) {
                Ok(res) => r matches Ok(l) && l@ == res.0 && final(self)@ == res.1,
                Err(e) => r matches Err(e2) && e2 == e,
            },
    {
        let mut commands: Vec<Command> = Vec::new();
        let mut first = match self.and_or() {
            Err(e) => {
                return Err(e);
            },
            Ok(None) => {
                if self.next_token_is(&TokenKind::Eof) {
                    proof {
                        assert(cmds_view(commands@) =~= Seq::<CommandView>::empty());
                    }
                    return Ok(CompoundList { commands });
                } else {
                    return Err(ParseErrorKind::UnexpectedToken(None));
                }
            },
            Ok(Some(cmd)) => cmd,
        };
        first.asynchronous = self.separator_is_async();
        commands.push(first);
        proof {
            assert(cmds_view(commands@) =~= seq![cmd_view(commands@[0])]);
        }
        loop
            invariant_except_break
                self.wf(),
                spec_parse(old(self)@) == spec_parse_rest(self@, cmds_view(commands@)),
            ensures
                self.wf(),
                spec_parse(old(self)@) == Ok::<(Seq<CommandView>, Seq<Token>), ParseErrorKind>(
                    (cmds_view(commands@), self@),
                ),
            decreases self@.len(),
        {
            let ghost pre = self@;
            let mut cmd = match self.and_or() {
                Err(e) => {
                    return Err(e);
                },
                Ok(None) => {
                    break ;
                },
                Ok(Some(c)) => c,
            };
            let ghost s1 = self@;
            cmd.asynchronous = self.separator_is_async();
            proof {
                lemma_and_or_len(pre);
                lemma_separator_len(s1);
            }
            let ghost prev = cmds_view(commands@);
            commands.push(cmd);
            proof {
                assert(cmds_view(commands@) =~= prev.push(cmd_view(cmd)));
            }
        }
        Ok(CompoundList { commands })
    }
}

} // verus!
