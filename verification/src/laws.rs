//! The grammar's guarantees, stated over the spec parser and proved once
//! for all inputs of the given shapes: plain-word simple commands parse to
//! themselves, newline-separated commands stay in source order, the
//! `&&`/`||` shorthand builds the one-sided `If` node, and each truncated,
//! syntactically committed construct is a fatal error.

use crate::ast::{CommandTypeView, CommandView, IfView, SimpleCommandView};
use crate::parse::{
    spec_and_or, spec_newline_list, spec_parse, spec_parse_rest, spec_separator_is_async,
    spec_simple_command_words, ParseErrorKind, ParseStep, WordsOutcome,
};
use crate::token::{spec_is_assignment_word, Operator, Token, TokenKind};
use vstd::prelude::*;

verus! {

/// A token that is a plain word: a `Word` whose text has no assignment
/// shape.
pub open spec fn plain_word(t: Token) -> bool {
    t.kind is Word && !spec_is_assignment_word(t.kind)
}

/// All tokens of a sequence are plain words.
pub open spec fn all_plain_words(s: Seq<Token>) -> bool {
    forall|i: int| 0 <= i < s.len() ==> plain_word(#[trigger] s[i])
}

/// The command a plain-word simple command parses to: those words, in
/// order, with no assignments, no redirects, and nothing asynchronous.
pub open spec fn plain_words_command(ws: Seq<Token>) -> CommandView {
    CommandView {
        asynchronous: false,
        command: CommandTypeView::SimpleCommand(
            SimpleCommandView {
                assignments: Seq::empty(),
                file_redirects: Seq::empty(),
                fd_dups: Seq::empty(),
                words: ws,
                asynchronous: false,
            },
        ),
        redirects: None,
    }
}

/// The word-collecting loop moves a plain-word prefix into the word
/// accumulator, one token at a time, and goes on with what follows.
pub proof fn lemma_words_plain_prefix(s: Seq<Token>, follow: Seq<Token>, a: Seq<Token>, w: Seq<Token>)
    requires
        all_plain_words(s),
    ensures
        spec_simple_command_words(s + follow, a, w) == spec_simple_command_words(
            follow,
            a,
            w + s,
        ),
    decreases s.len(),
{
    if s.len() == 0 {
        assert(s + follow =~= follow);
        assert(w + s =~= w);
    } else {
        let t = s[0];
        let joined = s + follow;
        assert(joined[0] == t);
        assert(joined.len() > 0);
        assert(joined.subrange(1, joined.len() as int) =~= s.subrange(1, s.len() as int)
            + follow);
        assert(all_plain_words(s.subrange(1, s.len() as int)));
        lemma_words_plain_prefix(s.subrange(1, s.len() as int), follow, a, w.push(t));
        assert(w.push(t) + s.subrange(1, s.len() as int) =~= w + s);
    }
}

/// For every token stream that is one simple command of plain words, the
/// parse yields exactly that one command: its words are the input words in
/// order, its assignment and redirect lists are empty, and it is not
/// asynchronous.
pub proof fn lemma_parse_single_simple_command(ws: Seq<Token>)
    requires
        ws.len() > 0,
        all_plain_words(ws),
    ensures
        spec_parse(ws) == Ok::<_, ParseErrorKind>(
            (seq![plain_words_command(ws)], Seq::<Token>::empty()),
        ),
{
    lemma_words_plain_prefix(ws, Seq::empty(), Seq::empty(), Seq::empty());
    assert(ws + Seq::<Token>::empty() =~= ws);
    assert(Seq::<Token>::empty() + ws =~= ws);
    assert(spec_simple_command_words(ws, Seq::empty(), Seq::empty())
        == WordsOutcome::Done {
        assignments: Seq::empty(),
        words: ws,
        asynchronous: false,
        rest: Seq::<Token>::empty(),
    });
}

/// For every input of two newline-separated plain-word simple commands,
/// the parse yields the two commands in source order, each with its own
/// word list and neither asynchronous.
pub proof fn lemma_parse_two_lines(ws1: Seq<Token>, nl: Token, ws2: Seq<Token>)
    requires
        ws1.len() > 0,
        ws2.len() > 0,
        all_plain_words(ws1),
        all_plain_words(ws2),
        nl.kind is NewLine,
    ensures
        spec_parse(ws1 + seq![nl] + ws2) == Ok::<_, ParseErrorKind>(
            (
                seq![plain_words_command(ws1), plain_words_command(ws2)],
                Seq::<Token>::empty(),
            ),
        ),
{
    let s = ws1 + seq![nl] + ws2;
    let tail = seq![nl] + ws2;
    let c1 = plain_words_command(ws1);
    let c2 = plain_words_command(ws2);
    let nothing = Seq::<Token>::empty();
    assert(s =~= ws1 + tail);
    lemma_words_plain_prefix(ws1, tail, Seq::empty(), Seq::empty());
    assert(Seq::<Token>::empty() + ws1 =~= ws1);
    assert(tail[0] == nl);
    assert(tail.subrange(1, tail.len() as int) =~= ws2);
    // the first command is collected up to the newline, which is pushed back
    assert(spec_and_or(s) == ParseStep::Found(c1, tail));
    // the newline run after the first command stops at its first word
    assert(ws2[0].kind is Word);
    assert(spec_newline_list(ws2) == (false, ws2));
    assert(spec_separator_is_async(tail) == (false, ws2));
    // the second command is collected up to the end of the stream
    lemma_words_plain_prefix(ws2, Seq::empty(), Seq::empty(), Seq::empty());
    assert(ws2 + Seq::<Token>::empty() =~= ws2);
    assert(Seq::<Token>::empty() + ws2 =~= ws2);
    assert(spec_and_or(ws2) == ParseStep::Found(c2, nothing));
    assert(spec_separator_is_async(nothing) == (false, nothing));
    // nothing follows: the list loop stops
    assert(spec_and_or(nothing) == ParseStep::<CommandView>::Absent(nothing));
    assert(spec_parse_rest(nothing, seq![c1, c2]) == Ok::<_, ParseErrorKind>(
        (seq![c1, c2], nothing),
    ));
    assert(seq![c1].push(CommandView { asynchronous: false, ..c2 }) =~= seq![c1, c2]);
    assert(spec_parse_rest(ws2, seq![c1]) == Ok::<_, ParseErrorKind>((seq![c1, c2], nothing)));
    assert(seq![CommandView { asynchronous: false, ..c1 }] =~= seq![c1]);
    assert(spec_parse(s) == Ok::<_, ParseErrorKind>((seq![c1, c2], nothing)));
}

/// `cmd1 && cmd2` parses to an `If` whose condition wraps `cmd1` and whose
/// `true_part` wraps `cmd2`, with `false_part` empty; `cmd1 || cmd2` is
/// the mirror image, populating `false_part` instead.
pub proof fn lemma_parse_conditional(ws1: Seq<Token>, op: Token, ws2: Seq<Token>)
    requires
        ws1.len() > 0,
        ws2.len() > 0,
        all_plain_words(ws1),
        all_plain_words(ws2),
        op.kind == TokenKind::Operator(Operator::AndIf) || op.kind == TokenKind::Operator(
            Operator::OrIf,
        ),
    ensures
        spec_parse(ws1 + seq![op] + ws2) == Ok::<_, ParseErrorKind>(
            (
                seq![
                    CommandView {
                        asynchronous: false,
                        command: CommandTypeView::If(
                            IfView {
                                condition: seq![plain_words_command(ws1)],
                                true_part: if op.kind == TokenKind::Operator(Operator::AndIf) {
                                    Some(seq![plain_words_command(ws2)])
                                } else {
                                    None
                                },
                                false_part: if op.kind == TokenKind::Operator(Operator::AndIf) {
                                    None
                                } else {
                                    Some(seq![plain_words_command(ws2)])
                                },
                            },
                        ),
                        redirects: None,
                    },
                ],
                Seq::<Token>::empty(),
            ),
        ),
{
    let s = ws1 + seq![op] + ws2;
    let tail = seq![op] + ws2;
    assert(s =~= ws1 + tail);
    lemma_words_plain_prefix(ws1, tail, Seq::empty(), Seq::empty());
    assert(Seq::<Token>::empty() + ws1 =~= ws1);
    assert(tail[0] == op);
    assert(tail.subrange(1, tail.len() as int) =~= ws2);
    assert(ws2[0].kind is Word);
    lemma_words_plain_prefix(ws2, Seq::empty(), Seq::empty(), Seq::empty());
    assert(ws2 + Seq::<Token>::empty() =~= ws2);
    assert(Seq::<Token>::empty() + ws2 =~= ws2);
}

/// A `|` with nothing after it is a fatal parse error: the word collector
/// itself rejects the pipe token with an unexpected-token error carrying
/// its position.
pub proof fn lemma_pipe_with_nothing_fails(ws: Seq<Token>, pipe: Token)
    requires
        ws.len() > 0,
        all_plain_words(ws),
        pipe.kind == TokenKind::Operator(Operator::Pipe),
    ensures
        spec_parse(ws + seq![pipe]) is Err,
{
    let s = ws + seq![pipe];
    lemma_words_plain_prefix(ws, seq![pipe], Seq::empty(), Seq::empty());
    assert(Seq::<Token>::empty() + ws =~= ws);
    assert((seq![pipe])[0] == pipe);
}

/// A `!` with nothing following is a fatal parse error.
pub proof fn lemma_bang_with_nothing_fails(bang: Token)
    requires
        bang.spec_is_reserved_word(crate::token::ReservedWord::Bang),
    ensures
        spec_parse(seq![bang]) == Err::<(Seq<CommandView>, Seq<Token>), _>(
            ParseErrorKind::ExpectedCommandAfterBang,
        ),
{
    assert((seq![bang])[0] == bang);
    assert((seq![bang]).subrange(1, 1) =~= Seq::<Token>::empty());
}

/// `cmd1 && ` with nothing following is a fatal parse error.
pub proof fn lemma_conditional_with_nothing_fails(ws: Seq<Token>, op: Token)
    requires
        ws.len() > 0,
        all_plain_words(ws),
        op.kind == TokenKind::Operator(Operator::AndIf) || op.kind == TokenKind::Operator(
            Operator::OrIf,
        ),
    ensures
        spec_parse(ws + seq![op]) == Err::<(Seq<CommandView>, Seq<Token>), _>(
            if op.kind == TokenKind::Operator(Operator::AndIf) {
                ParseErrorKind::MissingPipelineAfterAndIf
            } else {
                ParseErrorKind::MissingPipelineAfterOrIf
            },
        ),
{
    let s = ws + seq![op];
    lemma_words_plain_prefix(ws, seq![op], Seq::empty(), Seq::empty());
    assert(Seq::<Token>::empty() + ws =~= ws);
    assert((seq![op])[0] == op);
    assert((seq![op]).subrange(1, 1) =~= Seq::<Token>::empty());
}

} // verus!

