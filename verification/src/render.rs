//! A renderer for the command trees that can be written back out as a
//! token stream: lists of plain-word simple commands, joined by newlines.
//! Re-parsing the rendering reproduces the tree exactly; that round trip
//! is proved below for every renderable tree, not tested on samples.
//! Trees outside the subset (conditionals, pipelines, asynchronous
//! commands) are not rendered: the grammar does not read back everything
//! it can build.

use crate::ast::{
    cmd_view, cmds_view, CommandType, CommandTypeView, CommandView, CompoundList,
};
use crate::laws::{all_plain_words, lemma_words_plain_prefix, plain_word, plain_words_command};
use crate::parse::{
    spec_and_or, spec_newline_list, spec_parse, spec_parse_rest, spec_separator_is_async,
    ParseErrorKind, ParseStep,
};
use crate::token::{Token, TokenKind, TokenPosition};
use vstd::prelude::*;

verus! {

broadcast use {crate::ast::lemma_cmds_view_len, crate::ast::lemma_cmds_view_index};

/// A command the renderer can write back: exactly what its own words
/// parse to — a synchronous, redirect-free simple command of one or more
/// plain words.
pub open spec fn renderable(c: CommandView) -> bool {
    match c.command {
        CommandTypeView::SimpleCommand(sc) => {
            &&& sc.words.len() > 0
            &&& all_plain_words(sc.words)
            &&& c == plain_words_command(sc.words)
        },
        _ => false,
    }
}

/// Every command of a list is renderable.
pub open spec fn all_renderable(l: Seq<CommandView>) -> bool {
    forall|i: int| 0 <= i < l.len() ==> renderable(#[trigger] l[i])
}

/// The words of a renderable command.
pub open spec fn words_of(c: CommandView) -> Seq<Token> {
    match c.command {
        CommandTypeView::SimpleCommand(sc) => sc.words,
        _ => Seq::empty(),
    }
}

/// The newline token the renderer writes between commands.
pub open spec fn newline_token() -> Token {
    Token {
        kind: TokenKind::NewLine,
        start: TokenPosition { line_number: 0, col_number: 0 },
        end: TokenPosition { line_number: 0, col_number: 0 },
    }
}

/// The token stream a renderable tree is written out as: each command's
/// words, with one newline between consecutive commands.
pub open spec fn render_tokens(l: Seq<CommandView>) -> Seq<Token>
    decreases l.len(),
{
    if l.len() == 0 {
        Seq::empty()
    } else if l.len() == 1 {
        words_of(l[0])
    } else {
        words_of(l[0]) + seq![newline_token()] + render_tokens(l.subrange(1, l.len() as int))
    }
}

/// The list loop reads a rendering back as exactly the rendered commands,
/// whatever was already accumulated.
proof fn lemma_render_rest(l: Seq<CommandView>, acc: Seq<CommandView>)
    requires
        all_renderable(l),
    ensures
        spec_parse_rest(render_tokens(l), acc) == Ok::<_, ParseErrorKind>(
            (acc + l, Seq::<Token>::empty()),
        ),
    decreases l.len(),
{
    let nothing = Seq::<Token>::empty();
    if l.len() == 0 {
        assert(acc + l =~= acc);
        assert(spec_and_or(nothing) == ParseStep::<CommandView>::Absent(nothing));
    } else {
        let c = l[0];
        let ws = words_of(c);
        let rest = l.subrange(1, l.len() as int);
        assert(renderable(c));
        assert(all_renderable(rest));
        assert(CommandView { asynchronous: false, ..c } == c);
        if l.len() == 1 {
            assert(render_tokens(l) == ws);
            lemma_words_plain_prefix(ws, nothing, Seq::empty(), Seq::empty());
            assert(ws + nothing =~= ws);
            assert(Seq::<Token>::empty() + ws =~= ws);
            assert(spec_and_or(ws) == ParseStep::Found(c, nothing));
            assert(spec_separator_is_async(nothing) == (false, nothing));
            lemma_render_rest(rest, acc.push(c));
            assert(acc.push(c) + rest =~= acc + l);
        } else {
            let tail = seq![newline_token()] + render_tokens(rest);
            assert(render_tokens(l) =~= ws + tail);
            lemma_words_plain_prefix(ws, tail, Seq::empty(), Seq::empty());
            assert(Seq::<Token>::empty() + ws =~= ws);
            assert(tail[0] == newline_token());
            assert(tail.subrange(1, tail.len() as int) =~= render_tokens(rest));
            assert(spec_and_or(render_tokens(l)) == ParseStep::Found(c, tail));
            // the newline run stops at the next command's first word
            assert(renderable(rest[0]));
            assert(words_of(rest[0]).len() > 0);
            assert(render_tokens(rest)[0] == words_of(rest[0])[0]);
            assert(render_tokens(rest)[0].kind is Word);
            assert(spec_newline_list(render_tokens(rest)) == (false, render_tokens(rest)));
            assert(spec_separator_is_async(tail) == (false, render_tokens(rest)));
            lemma_render_rest(rest, acc.push(c));
            assert(acc.push(c) + rest =~= acc + l);
        }
    }
}

/// The round trip: re-parsing the rendering of any renderable tree
/// reproduces an equal tree — the same commands, in the same order, with
/// nothing left over.
pub proof fn lemma_render_round_trip(l: Seq<CommandView>)
    requires
        all_renderable(l),
    ensures
        spec_parse(render_tokens(l)) == Ok::<_, ParseErrorKind>((l, Seq::<Token>::empty())),
{
    let nothing = Seq::<Token>::empty();
    if l.len() == 0 {
        assert(spec_and_or(nothing) == ParseStep::<CommandView>::Absent(nothing));
        assert(l =~= Seq::<CommandView>::empty());
    } else {
        let c = l[0];
        let ws = words_of(c);
        let rest = l.subrange(1, l.len() as int);
        assert(renderable(c));
        assert(all_renderable(rest));
        assert(CommandView { asynchronous: false, ..c } == c);
        if l.len() == 1 {
            assert(render_tokens(l) == ws);
            lemma_words_plain_prefix(ws, nothing, Seq::empty(), Seq::empty());
            assert(ws + nothing =~= ws);
            assert(Seq::<Token>::empty() + ws =~= ws);
            assert(spec_and_or(ws) == ParseStep::Found(c, nothing));
            assert(spec_separator_is_async(nothing) == (false, nothing));
            lemma_render_rest(rest, seq![c]);
            assert(seq![c] + rest =~= l);
        } else {
            let tail = seq![newline_token()] + render_tokens(rest);
            assert(render_tokens(l) =~= ws + tail);
            lemma_words_plain_prefix(ws, tail, Seq::empty(), Seq::empty());
            assert(Seq::<Token>::empty() + ws =~= ws);
            assert(tail[0] == newline_token());
            assert(tail.subrange(1, tail.len() as int) =~= render_tokens(rest));
            assert(spec_and_or(render_tokens(l)) == ParseStep::Found(c, tail));
            assert(renderable(rest[0]));
            assert(words_of(rest[0]).len() > 0);
            assert(render_tokens(rest)[0] == words_of(rest[0])[0]);
            assert(render_tokens(rest)[0].kind is Word);
            assert(spec_newline_list(render_tokens(rest)) == (false, render_tokens(rest)));
            assert(spec_separator_is_async(tail) == (false, render_tokens(rest)));
            lemma_render_rest(rest, seq![c]);
            assert(seq![c] + rest =~= l);
        }
    }
}


/// Appending one command to a rendering appends a newline (after a
/// nonempty rendering) and the command's words.
proof fn lemma_render_tokens_push(l: Seq<CommandView>, c: CommandView)
    ensures
        render_tokens(l.push(c)) == if l.len() == 0 {
            words_of(c)
        } else {
            render_tokens(l) + seq![newline_token()] + words_of(c)
        },
    decreases l.len(),
{
    let grown = l.push(c);
    if l.len() == 0 {
        assert(grown.len() == 1);
        assert(grown[0] == c);
    } else {
        assert(grown[0] == l[0]);
        let rest = l.subrange(1, l.len() as int);
        assert(grown.subrange(1, grown.len() as int) =~= rest.push(c));
        lemma_render_tokens_push(rest, c);
        if l.len() == 1 {
            assert(rest.len() == 0);
            assert(render_tokens(grown) == words_of(l[0]) + seq![newline_token()] + words_of(c));
            assert(render_tokens(l) == words_of(l[0]));
        } else {
            assert(render_tokens(grown) =~= (words_of(l[0]) + seq![newline_token()]
                + render_tokens(rest)) + seq![newline_token()] + words_of(c));
            assert(render_tokens(l) == words_of(l[0]) + seq![newline_token()]
                + render_tokens(rest));
        }
    }
}

impl CompoundList {
    /// Write this list back as the token stream it parses from, when every
    /// command is a renderable plain-word simple command; `None` when the
    /// tree holds anything the renderer does not write.
    #[verifier::loop_isolation(false)]
    pub fn render(self) -> (r: Option<Vec<Token>>)
        ensures
            match r {
                Some(v) => all_renderable(self@) && v@ == render_tokens(self@),
                None => !all_renderable(self@),
            },
    {
        let ghost full = self@;
        let mut commands = self.commands;
        let mut out: Vec<Token> = Vec::new();
        let mut first = true;
        let ghost mut done: Seq<CommandView> = Seq::empty();
        proof {
            assert(done + cmds_view(commands@) =~= full);
            assert(out@ =~= render_tokens(done));
        }
        while commands.len() > 0
            invariant
                full == done + cmds_view(commands@),
                all_renderable(done),
                out@ == render_tokens(done),
                first <==> done.len() == 0,
            decreases commands@.len(),
        {
            let ghost before = commands@;
            let cmd = commands.remove(0);
            let ghost cv = cmd_view(cmd);
            proof {
                assert(before.remove(0) =~= before.subrange(1, before.len() as int));
                assert(cmds_view(before)[0] == cv);
                assert(cmds_view(before) =~= seq![cv] + cmds_view(commands@));
                assert(full[done.len() as int] == cv);
            }
            if cmd.asynchronous {
                proof {
                    assert(!renderable(cv));
                }
                return None;
            }
            if cmd.redirects.is_some() {
                proof {
                    assert(!renderable(cv));
                }
                return None;
            }
            let simple = match cmd.command {
                CommandType::SimpleCommand(sc) => sc,
                _ => {
                    proof {
                        assert(!renderable(cv));
                    }
                    return None;
                },
            };
            if !simple.assignments.is_empty() || !simple.file_redirects.is_empty()
                || !simple.fd_dups.is_empty() || simple.asynchronous
                || simple.words.is_empty() {
                proof {
                    assert(!renderable(cv));
                }
                return None;
            }
            // every word must be a plain word
            let wn = simple.words.len();
            let mut i: usize = 0;
            while i < wn
                invariant
                    i <= wn,
                    wn == simple.words@.len(),
                    forall|j: int| 0 <= j < i ==> plain_word(#[trigger] simple.words@[j]),
                decreases wn - i,
            {
                let plain = match &simple.words[i].kind {
                    TokenKind::Word(_) => !simple.words[i].kind.is_assignment_word(),
                    _ => false,
                };
                if !plain {
                    proof {
                        assert(!plain_word(simple.words@[i as int]));
                        assert(!all_plain_words(simple.words@));
                        assert(!renderable(cv));
                    }
                    return None;
                }
                i = i + 1;
            }
            let mut words = simple.words;
            proof {
                assert(simple.assignments@ =~= Seq::<Token>::empty());
                assert(simple.file_redirects@ =~= Seq::<crate::ast::FileRedirection>::empty());
                assert(simple.fd_dups@ =~= Seq::<crate::ast::FdDuplication>::empty());
                assert(all_plain_words(words@));
                assert(cv == plain_words_command(words@));
                assert(renderable(cv));
                assert(words_of(cv) == words@);
                lemma_render_tokens_push(done, cv);
            }
            let ghost out_before = out@;
            if first {
                out.append(&mut words);
                first = false;
            } else {
                out.push(Token::new(
                    TokenKind::NewLine,
                    TokenPosition { line_number: 0, col_number: 0 },
                    TokenPosition { line_number: 0, col_number: 0 },
                ));
                out.append(&mut words);
                proof {
                    assert(out@ =~= out_before + seq![newline_token()] + words_of(cv));
                }
            }
            proof {
                done = done.push(cv);
                assert(full =~= done + cmds_view(commands@));
            }
        }
        proof {
            assert(cmds_view(commands@) =~= Seq::<CommandView>::empty());
            assert(done =~= full);
        }
        Some(out)
    }
}

} // verus!
