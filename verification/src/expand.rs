//! Turning the words of a simple command into an argv: the command word
//! has alias rules applied once, every word is expanded into zero or more
//! fields, and leading assignments play no part. Home-directory lookup is
//! a capability the caller provides; everything else is verified here.

use crate::ast::SimpleCommand;
use crate::token::{Token, TokenKind};
use vstd::prelude::*;
use vstd::string::{StrSliceExecFns, StringExecFns};

verus! {

/// Why an expansion failed.
#[derive(Debug, Clone, Copy, PartialEq, Eq, Structural)]
pub enum ExpandError {
    /// A token kind other than word or name reached expansion; the parser
    /// guarantees this cannot happen for trees it built itself.
    UnhandledTokenKind,
    /// The expander capability could not resolve a home directory.
    HomedirUnavailable,
}

/// The environment a command runs against, carried across executions.
#[derive(Debug, Clone, PartialEq, Eq)]
pub struct Environment {
    pub vars: Vec<(String, String)>,
}

impl View for Environment {
    type V = Seq<(String, String)>;

    open spec fn view(&self) -> Seq<(String, String)> {
        self.vars@
    }
}

impl Environment {
    /// An empty environment.
    pub fn new() -> (e: Environment)
        ensures
            e@ == Seq::<(String, String)>::empty(),
    {
        Environment { vars: Vec::new() }
    }
}

/// The alias table consulted by the command-word rules; a later entry for
/// the same name overrides an earlier one.
#[derive(Debug, Clone, PartialEq, Eq)]
pub struct Aliases {
    pub entries: Vec<(String, String)>,
}

impl View for Aliases {
    type V = Seq<(String, String)>;

    open spec fn view(&self) -> Seq<(String, String)> {
        self.entries@
    }
}

/// The value the alias table gives a name, newest entry first.
pub open spec fn spec_alias_lookup(entries: Seq<(String, String)>, name: Seq<char>) -> Option<
    Seq<char>,
>
    decreases entries.len(),
{
    if entries.len() == 0 {
        None
    } else if entries.last().0@ == name {
        Some(entries.last().1@)
    } else {
        spec_alias_lookup(entries.drop_last(), name)
    }
}

/// Two strings hold the same characters.
fn str_eq(a: &str, b: &str) -> (r: bool)
    ensures
        r == (a@ == b@),
{
    let na = a.unicode_len();
    let nb = b.unicode_len();
    if na != nb {
        proof {
            assert(a@ != b@);
        }
        return false;
    }
    let mut i: usize = 0;
    loop
        invariant
            na == a@.len(),
            na == b@.len(),
            i <= na,
            forall|j: int| 0 <= j < i ==> a@[j] == b@[j],
        decreases na - i,
    {
        if i >= na {
            proof {
                assert(a@ =~= b@);
            }
            return true;
        }
        if a.get_char(i) != b.get_char(i) {
            return false;
        }
        i = i + 1;
    }
}

impl Aliases {
    /// An empty alias table.
    pub fn new() -> (a: Aliases)
        ensures
            a@ == Seq::<(String, String)>::empty(),
    {
        Aliases { entries: Vec::new() }
    }

    /// Define (or override) an alias.
    pub fn alias(&mut self, name: &str, value: &str)
        ensures
            final(self)@.len() == old(self)@.len() + 1,
            final(self)@.drop_last() == old(self)@,
            final(self)@.last().0@ == name@,
            final(self)@.last().1@ == value@,
            spec_alias_lookup(final(self)@, name@) == Some(value@),
    {
        let entry = (String::from_str(name), String::from_str(value));
        proof {
            assert(entry.0@ == name@);
            assert(entry.1@ == value@);
        }
        self.entries.push(entry);
        proof {
            assert(self.entries@.last() == entry);
            assert(self.entries@.drop_last() =~= old(self).entries@);
            assert(spec_alias_lookup(self.entries@, name@) == Some(value@));
        }
    }

    /// Look a name up, newest entry first.
    pub fn lookup(&self, name: &str) -> (r: Option<&String>)
        ensures
            match r {
                Some(v) => spec_alias_lookup(self@, name@) == Some(v@),
                None => spec_alias_lookup(self@, name@) is None,
            },
    {
        let n = self.entries.len();
        let mut i: usize = n;
        proof {
            assert(self.entries@.subrange(0, n as int) =~= self.entries@);
        }
        loop
            invariant
                i <= n,
                n == self.entries@.len(),
                spec_alias_lookup(self@, name@) == spec_alias_lookup(
                    self.entries@.subrange(0, i as int),
                    name@,
                ),
            decreases i,
        {
            if i == 0 {
                return None;
            }
            i = i - 1;
            let entry = &self.entries[i];
            proof {
                assert(self.entries@.subrange(0, i as int + 1).last() == self.entries@[i as int]);
                assert(self.entries@.subrange(0, i as int + 1).drop_last() =~= self.entries@
                    .subrange(0, i as int));
            }
            if str_eq(entry.0.as_str(), name) {
                return Some(&entry.1);
            }
        }
    }
}

/// A field separator: the characters a word is split on.
pub open spec fn is_field_sep(c: char) -> bool {
    c == ' ' || c == '\t' || c == '\n'
}

/// The splitting state after reading a prefix: the complete fields so
/// far, and the (possibly empty) field being collected.
pub open spec fn split_state(s: Seq<char>) -> (Seq<Seq<char>>, Seq<char>)
    decreases s.len(),
{
    if s.len() == 0 {
        (Seq::empty(), Seq::empty())
    } else {
        let (fields, cur) = split_state(s.drop_last());
        let c = s.last();
        if is_field_sep(c) {
            if cur.len() > 0 {
                (fields.push(cur), Seq::empty())
            } else {
                (fields, Seq::empty())
            }
        } else {
            (fields, cur.push(c))
        }
    }
}

/// The fields a word splits into: the maximal separator-free nonempty
/// runs, in order.
pub open spec fn split_fields(s: Seq<char>) -> Seq<Seq<char>> {
    let (fields, cur) = split_state(s);
    if cur.len() > 0 {
        fields.push(cur)
    } else {
        fields
    }
}

fn exec_is_field_sep(c: char) -> (r: bool)
    ensures
        r == is_field_sep(c),
{
    c == ' ' || c == '\t' || c == '\n'
}

/// Split a word into its whitespace-separated fields.
fn split_word_fields(s: &str) -> (r: Vec<String>)
    ensures
        r.deep_view() == split_fields(s@),
{
    let n = s.unicode_len();
    let mut fields: Vec<String> = Vec::new();
    let mut i: usize = 0;
    let mut start: usize = 0;
    loop
        invariant
            n == s@.len(),
            start <= i <= n,
            (fields.deep_view(), s@.subrange(start as int, i as int)) == split_state(
                s@.subrange(0, i as int),
            ),
        ensures
            n == s@.len(),
            start <= i,
            i == n,
            (fields.deep_view(), s@.subrange(start as int, i as int)) == split_state(
                s@.subrange(0, i as int),
            ),
        decreases n - i,
    {
        if i >= n {
            break ;
        }
        let c = s.get_char(i);
        let ghost prefix = s@.subrange(0, i as int);
        proof {
            assert(s@.subrange(0, i as int + 1).drop_last() =~= prefix);
            assert(s@.subrange(0, i as int + 1).last() == s@[i as int]);
        }
        if exec_is_field_sep(c) {
            if i > start {
                let field = s.substring_char(start, i).to_owned();
                let ghost old_fields = fields.deep_view();
                fields.push(field);
                proof {
                    assert(fields.deep_view() =~~= old_fields.push(s@.subrange(
                        start as int,
                        i as int,
                    )));
                }
            }
            start = i + 1;
            proof {
                assert(s@.subrange(start as int, i as int + 1) =~= Seq::<char>::empty());
            }
        } else {
            proof {
                assert(s@.subrange(start as int, i as int + 1) =~= s@.subrange(
                    start as int,
                    i as int,
                ).push(s@[i as int]));
            }
        }
        i = i + 1;
    }
    proof {
        assert(s@.subrange(0, n as int) =~= s@);
    }
    if n > start {
        let field = s.substring_char(start, n).to_owned();
        let ghost old_fields = fields.deep_view();
        fields.push(field);
        proof {
            assert(fields.deep_view() =~~= old_fields.push(s@.subrange(start as int, n as int)));
        }
    }
    fields
}

/// The capability expansion consults: resolving a home directory for
/// tilde words. Implementations are the caller's; nothing is assumed of
/// them.
pub trait Expander {
    /// The home directory of the given user, or of the current user for
    /// `None`.
    fn lookup_homedir(&self, user: Option<&str>, env: &mut Environment) -> Result<
        String,
        ExpandError,
    >;
}

/// A word-like token: only these may appear among a simple command's
/// words.
pub open spec fn wordlike(t: Token) -> bool {
    t.kind is Word || t.kind is Name
}

/// The text a word-like token carries.
pub open spec fn token_text(t: Token) -> Seq<char> {
    match t.kind {
        TokenKind::Word(s) => s@,
        TokenKind::Name(s) => s@,
        _ => Seq::empty(),
    }
}

/// The command-word rule: the text an alias table turns a word into.
pub open spec fn alias_text(aliases: Seq<(String, String)>, text: Seq<char>) -> Seq<char> {
    match spec_alias_lookup(aliases, text) {
        Some(v) => v,
        None => text,
    }
}

/// What expanding a word list comes to.
pub ghost enum ExpandOutcome {
    /// Every word expanded by the library's own rules; this is the argv.
    Args(Seq<Seq<char>>),
    /// Some word asks the home-directory capability; the result depends
    /// on it and is not pinned down here.
    NeedsCapability,
    /// A token kind other than word or name was among the words.
    BadToken,
}

/// Expand words left to right: while the argv is still empty the alias
/// rule is applied to the word (so the command word is rewritten once),
/// and each word contributes its split fields.
pub open spec fn spec_expand_argv_loop(
    aliases: Seq<(String, String)>,
    words: Seq<Token>,
    acc: Seq<Seq<char>>,
) -> ExpandOutcome
    decreases words.len(),
{
    if words.len() == 0 {
        ExpandOutcome::Args(acc)
    } else {
        let t = words[0];
        if !wordlike(t) {
            ExpandOutcome::BadToken
        } else {
            let text = if acc.len() == 0 {
                alias_text(aliases, token_text(t))
            } else {
                token_text(t)
            };
            if text.len() > 0 && text[0] == '~' {
                ExpandOutcome::NeedsCapability
            } else {
                spec_expand_argv_loop(
                    aliases,
                    words.subrange(1, words.len() as int),
                    acc + split_fields(text),
                )
            }
        }
    }
}

/// The argv a simple command's words expand to.
pub open spec fn spec_expand_argv(aliases: Seq<(String, String)>, words: Seq<Token>) -> ExpandOutcome {
    spec_expand_argv_loop(aliases, words, Seq::empty())
}

impl SimpleCommand {
    /// Expand this command's words into an argv: the command word has the
    /// alias rule applied before expansion, later words are expanded
    /// as-is, and the leading assignments contribute nothing. Words
    /// starting with `~` consult the expander capability for a home
    /// directory; everything else is split into fields here.
    pub fn expand_argv<E: Expander>(
        &self,
        env: &mut Environment,
        expander: &E,
        aliases: &Aliases,
    ) -> (r: Result<Vec<String>, ExpandError>)
        ensures
            match spec_expand_argv(aliases@, self.words@) {
                ExpandOutcome::Args(a) => r matches Ok(v) && v.deep_view() == a && *final(env)
                    == *old(env),
                ExpandOutcome::BadToken => r == Err::<Vec<String>, ExpandError>(
                    ExpandError::UnhandledTokenKind,
                ) && *final(env) == *old(env),
                ExpandOutcome::NeedsCapability => true,
            },
    {
        let mut argv: Vec<String> = Vec::new();
        let n = self.words.len();
        let mut i: usize = 0;
        proof {
            assert(self.words@.subrange(0, n as int) =~= self.words@);
            assert(argv.deep_view() =~= Seq::<Seq<char>>::empty());
        }
        loop
            invariant
                i <= n,
                n == self.words@.len(),
                spec_expand_argv(aliases@, self.words@) == spec_expand_argv_loop(
                    aliases@,
                    self.words@.subrange(i as int, n as int),
                    argv.deep_view(),
                ) || spec_expand_argv(aliases@, self.words@) is NeedsCapability,
                !(spec_expand_argv(aliases@, self.words@) is NeedsCapability) ==> *env == *old(
                    env,
                ),
            ensures
                i == n,
                n == self.words@.len(),
                spec_expand_argv(aliases@, self.words@) == spec_expand_argv_loop(
                    aliases@,
                    self.words@.subrange(i as int, n as int),
                    argv.deep_view(),
                ) || spec_expand_argv(aliases@, self.words@) is NeedsCapability,
                !(spec_expand_argv(aliases@, self.words@) is NeedsCapability) ==> *env == *old(
                    env,
                ),
            decreases n - i,
        {
            if i >= n {
                break ;
            }
            let ghost rem = self.words@.subrange(i as int, n as int);
            proof {
                assert(rem[0] == self.words@[i as int]);
                assert(rem.subrange(1, rem.len() as int) =~= self.words@.subrange(
                    i as int + 1,
                    n as int,
                ));
            }
            let token = &self.words[i];
            let text: &String = match &token.kind {
                TokenKind::Word(s) => s,
                TokenKind::Name(s) => s,
                _ => {
                    return Err(ExpandError::UnhandledTokenKind);
                },
            };
            let applied: String = if argv.is_empty() {
                match aliases.lookup(text.as_str()) {
                    Some(v) => String::from_str(v.as_str()),
                    None => String::from_str(text.as_str()),
                }
            } else {
                String::from_str(text.as_str())
            };
            let an = applied.as_str().unicode_len();
            if an > 0 && applied.as_str().get_char(0) == '~' {
                // the home-directory capability decides this word
                let mut slash: usize = 1;
                loop
                    invariant
                        1 <= slash <= an,
                        an == applied@.len(),
                    decreases an - slash,
                {
                    if slash >= an || applied.as_str().get_char(slash) == '/' {
                        break ;
                    }
                    slash = slash + 1;
                }
                let user: &str = applied.as_str().substring_char(1, slash);
                let suffix: &str = applied.as_str().substring_char(slash, an);
                let looked_up = if user.unicode_len() == 0 {
                    expander.lookup_homedir(None, env)
                } else {
                    expander.lookup_homedir(Some(user), env)
                };
                let mut home = match looked_up {
                    Ok(h) => h,
                    Err(e) => {
                        return Err(e);
                    },
                };
                home.append(suffix);
                argv.push(home);
            } else {
                let ghost old_argv = argv.deep_view();
                let mut fields = split_word_fields(applied.as_str());
                argv.append(&mut fields);
                proof {
                    assert(argv.deep_view() =~~= old_argv + split_fields(applied@));
                }
            }
            i = i + 1;
        }
        proof {
            assert(self.words@.subrange(n as int, n as int) =~= Seq::<Token>::empty());
        }
        Ok(argv)
    }
}

/// An assignment word followed by plain words expands to exactly the
/// words' own fields: the alias rule rewrites the command word once, the
/// second word is expanded as-is, and the assignments are no part of the
/// argv at all (expansion never reads them).
pub proof fn lemma_expand_two_words(
    aliases: Seq<(String, String)>,
    w1: Token,
    w2: Token,
)
    requires
        wordlike(w1),
        wordlike(w2),
        alias_text(aliases, token_text(w1)).len() == 0 || alias_text(
            aliases,
            token_text(w1),
        )[0] != '~',
        token_text(w2).len() == 0 || token_text(w2)[0] != '~',
        split_fields(alias_text(aliases, token_text(w1))).len() > 0,
    ensures
        spec_expand_argv(aliases, seq![w1, w2]) == ExpandOutcome::Args(
            split_fields(alias_text(aliases, token_text(w1))) + split_fields(token_text(w2)),
        ),
{
    let ws = seq![w1, w2];
    let f1 = split_fields(alias_text(aliases, token_text(w1)));
    let f2 = split_fields(token_text(w2));
    assert(ws.subrange(1, 2) =~= seq![w2]);
    assert((seq![w2]).subrange(1, 1) =~= Seq::<Token>::empty());
    assert(Seq::<Seq<char>>::empty() + f1 =~= f1);
    assert(spec_expand_argv_loop(aliases, Seq::empty(), f1 + f2) == ExpandOutcome::Args(f1 + f2));
    assert(spec_expand_argv_loop(aliases, seq![w2], f1) == ExpandOutcome::Args(f1 + f2));
}

} // verus!
