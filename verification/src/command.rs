//! The command parser: given a configured prefix and a chat message, it
//! extracts the explicit command the message addresses to a plugin.
//!
//! The text after the prefix is split on runs of whitespace; re-joining the
//! tokens with single spaces parses back to the same tokens (proved below as
//! [`lemma_tokens_round_trip`]).

use vstd::prelude::*;
use vstd::string::*;
use crate::message::{Message, MessageCommand};

verus! {

/// The whitespace characters token splitting breaks on.
pub open spec fn is_ws(c: char) -> bool {
    c == ' ' || c == '\t' || c == '\n' || c == '\r' || c == '\u{b}' || c == '\u{c}'
}

/// The length of the leading run of non-whitespace characters.
pub open spec fn run_len(s: Seq<char>) -> nat
    decreases s.len(),
{
    if s.len() == 0 || is_ws(s[0]) {
        0
    } else {
        1 + run_len(s.drop_first())
    }
}

/// The leading non-whitespace run stays within `s`, holds no whitespace, and
/// is maximal.
pub proof fn lemma_run_len(s: Seq<char>)
    ensures
        run_len(s) <= s.len(),
        forall|k: int| 0 <= k < run_len(s) ==> !is_ws(s[k]),
        run_len(s) < s.len() ==> is_ws(s[run_len(s) as int]),
    decreases s.len(),
{
    if s.len() == 0 || is_ws(s[0]) {
    } else {
        lemma_run_len(s.drop_first());
        assert forall|k: int| 0 <= k < run_len(s) implies !is_ws(s[k]) by {
            if k > 0 {
                assert(s.drop_first()[k - 1] == s[k]);
            }
        }
        if run_len(s) < s.len() {
            assert(s.drop_first()[run_len(s.drop_first()) as int] == s[run_len(s) as int]);
        }
    }
}

/// If the characters of `s` at `[0, j)` are non-whitespace and `j` is the
/// end of `s` or a whitespace position, the leading run is exactly `j` long.
pub proof fn lemma_run_len_is(s: Seq<char>, j: int)
    requires
        0 <= j <= s.len(),
        forall|k: int| 0 <= k < j ==> !is_ws(s[k]),
        j < s.len() ==> is_ws(s[j]),
    ensures
        run_len(s) == j,
    decreases j,
{
    if j == 0 {
    } else {
        assert forall|k: int| 0 <= k < j - 1 implies !is_ws(s.drop_first()[k]) by {
            assert(s.drop_first()[k] == s[k + 1]);
        }
        if j - 1 < s.drop_first().len() {
            assert(s.drop_first()[j - 1] == s[j]);
        }
        lemma_run_len_is(s.drop_first(), j - 1);
    }
}

/// The tokens of `s`: the maximal runs of non-whitespace characters, in
/// order.
pub open spec fn split_ws(s: Seq<char>) -> Seq<Seq<char>>
    decreases s.len(),
{
    if s.len() == 0 {
        Seq::empty()
    } else if is_ws(s[0]) {
        split_ws(s.drop_first())
    } else {
        proof {
            lemma_run_len(s);
        }
        seq![s.take(run_len(s) as int)] + split_ws(s.skip(run_len(s) as int))
    }
}

/// A well-formed token list: every token is nonempty and holds no
/// whitespace.
pub open spec fn wf_tokens(ts: Seq<Seq<char>>) -> bool {
    &&& forall|t: int| 0 <= t < ts.len() ==> (#[trigger] ts[t]).len() > 0
    &&& forall|t: int, k: int|
        0 <= t < ts.len() && 0 <= k < ts[t].len() ==> !is_ws(#[trigger] ts[t][k])
}

/// Every token of `split_ws` is nonempty and holds no whitespace.
pub proof fn lemma_split_ws_wf(s: Seq<char>)
    ensures
        wf_tokens(split_ws(s)),
    decreases s.len(),
{
    if s.len() == 0 {
    } else if is_ws(s[0]) {
        lemma_split_ws_wf(s.drop_first());
    } else {
        lemma_run_len(s);
        lemma_split_ws_wf(s.skip(run_len(s) as int));
        let tok = s.take(run_len(s) as int);
        let rest = split_ws(s.skip(run_len(s) as int));
        assert(split_ws(s) == seq![tok] + rest);
        assert forall|t: int| 0 <= t < split_ws(s).len() implies (#[trigger] split_ws(
            s,
        )[t]).len() > 0 by {
            if t == 0 {
                assert(split_ws(s)[0] == tok);
            } else {
                assert(split_ws(s)[t] == rest[t - 1]);
            }
        }
        assert forall|t: int, k: int|
            0 <= t < split_ws(s).len() && 0 <= k < split_ws(s)[t].len() implies !is_ws(
            #[trigger] split_ws(s)[t][k],
        ) by {
            if t == 0 {
                assert(split_ws(s)[0] == tok);
                assert(tok[k] == s[k]);
            } else {
                assert(split_ws(s)[t] == rest[t - 1]);
                assert(rest[t - 1][k] == split_ws(s)[t][k]);
            }
        }
    }
}

/// The tokens joined with single spaces.
pub open spec fn join_tokens(ts: Seq<Seq<char>>) -> Seq<char>
    decreases ts.len(),
{
    if ts.len() == 0 {
        Seq::empty()
    } else if ts.len() == 1 {
        ts[0]
    } else {
        ts[0] + seq![' '] + join_tokens(ts.drop_first())
    }
}

/// A list of nonempty whitespace-free tokens parses back from its joined
/// text unchanged.
proof fn lemma_join_parses(ts: Seq<Seq<char>>)
    requires
        wf_tokens(ts),
    ensures
        split_ws(join_tokens(ts)) == ts,
    decreases ts.len(),
{
    if ts.len() == 0 {
        assert(split_ws(join_tokens(ts)) =~= ts);
    } else if ts.len() == 1 {
        let t = ts[0];
        lemma_run_len_is(t, t.len() as int);
        assert(t.take(t.len() as int) =~= t);
        assert(t.skip(t.len() as int) =~= Seq::<char>::empty());
        assert(split_ws(t) =~= seq![t] + split_ws(Seq::<char>::empty()));
        assert(seq![t] + Seq::<Seq<char>>::empty() =~= ts);
    } else {
        let t = ts[0];
        let rest = join_tokens(ts.drop_first());
        let s = join_tokens(ts);
        assert(s == t + seq![' '] + rest);
        assert forall|k: int| 0 <= k < t.len() implies !is_ws(s[k]) by {
            assert(s[k] == t[k]);
            assert(!is_ws(ts[0][k]));
        }
        assert(s[t.len() as int] == ' ');
        lemma_run_len_is(s, t.len() as int);
        assert(s.take(t.len() as int) =~= t);
        let after = s.skip(t.len() as int);
        assert(after[0] == ' ');
        assert(after.drop_first() =~= rest);
        assert forall|i: int| 0 <= i < ts.drop_first().len() implies (#[trigger] ts.drop_first()[
            i
        ]).len() > 0 by {
            assert(ts.drop_first()[i] == ts[i + 1]);
        }
        assert forall|i: int, k: int|
            0 <= i < ts.drop_first().len() && 0 <= k < ts.drop_first()[i].len() implies !is_ws(
            #[trigger] ts.drop_first()[i][k],
        ) by {
            assert(ts.drop_first()[i] == ts[i + 1]);
            assert(!is_ws(ts[i + 1][k]));
        }
        lemma_join_parses(ts.drop_first());
        assert(split_ws(s) =~= seq![t] + split_ws(after));
        assert(split_ws(after) == split_ws(rest));
        assert(seq![t] + ts.drop_first() =~= ts);
    }
}

/// Round-trip law of the parser: joining the tokens of any text with single
/// spaces gives a text that parses to exactly the same tokens.  The original
/// text is reproduced up to whitespace collapsing.
pub proof fn lemma_tokens_round_trip(s: Seq<char>)
    ensures
        split_ws(join_tokens(split_ws(s))) == split_ws(s),
{
    lemma_split_ws_wf(s);
    lemma_join_parses(split_ws(s));
}

/// An explicit, addressed request extracted from message text: the
/// whitespace-separated tokens after the prefix, with the sender identity
/// and the reply destination.
#[derive(Clone, Debug)]
pub struct PluginCommand {
    pub tokens: Vec<String>,
    pub source: String,
    pub target: String,
}

/// Whether `s` begins with `p`.
pub open spec fn spec_starts_with(s: Seq<char>, p: Seq<char>) -> bool {
    p.len() <= s.len() && s.take(p.len() as int) == p
}

/// The tokens of the text from index `start` on.
fn split_tokens_from(chars: &Vec<char>, start: usize) -> (r: Vec<String>)
    requires
        start <= chars@.len(),
    ensures
        r.deep_view() == split_ws(chars@.skip(start as int)),
{
    let mut r: Vec<String> = Vec::new();
    let mut i: usize = start;
    proof {
        assert(r.deep_view() + split_ws(chars@.skip(start as int)) =~= split_ws(
            chars@.skip(start as int),
        ));
    }
    while i < chars.len()
        invariant
            start <= i <= chars@.len(),
            split_ws(chars@.skip(start as int)) == r.deep_view() + split_ws(
                chars@.skip(i as int),
            ),
        decreases chars.len() - i,
    {
        let ghost rest = chars@.skip(i as int);
        let c = chars[i];
        if is_ws_exec(c) {
            proof {
                assert(rest.drop_first() =~= chars@.skip(i as int + 1));
            }
            i = i + 1;
        } else {
            // scan to the end of the run
            let mut j: usize = i + 1;
            while j < chars.len() && !is_ws_exec(chars[j])
                invariant
                    i < j <= chars@.len(),
                    forall|k: int| i <= k < j ==> !is_ws(chars@[k]),
                decreases chars.len() - j,
            {
                j = j + 1;
            }
            proof {
                assert forall|k: int| 0 <= k < j - i implies !is_ws(rest[k]) by {
                    assert(rest[k] == chars@[i + k]);
                }
                if j < chars@.len() {
                    assert(rest[j - i] == chars@[j as int]);
                }
                lemma_run_len_is(rest, j - i);
                assert(rest.take(j - i) =~= chars@.subrange(i as int, j as int));
                assert(rest.skip(j - i) =~= chars@.skip(j as int));
            }
            let token = crate::text::chars_to_string(chars_range(chars, i, j));
            let ghost r0 = r.deep_view();
            r.push(token);
            proof {
                assert(r.deep_view() =~= r0.push(token@));
                assert(r0.push(token@) =~= r0 + seq![token@]);
                assert((r0 + seq![token@]) + split_ws(chars@.skip(j as int)) =~= r0 + (seq![
                    token@,
                ] + split_ws(chars@.skip(j as int))));
            }
            i = j;
        }
    }
    proof {
        assert(chars@.skip(chars@.len() as int) =~= Seq::<char>::empty());
        assert(r.deep_view() + Seq::<Seq<char>>::empty() =~= r.deep_view());
    }
    r
}

/// The characters of `v` at `[from, to)`.
fn chars_range(v: &Vec<char>, from: usize, to: usize) -> (r: Vec<char>)
    requires
        from <= to <= v@.len(),
    ensures
        r@ == v@.subrange(from as int, to as int),
{
    let mut r: Vec<char> = Vec::new();
    let mut i: usize = from;
    proof {
        assert(v@.subrange(from as int, from as int) =~= Seq::<char>::empty());
    }
    while i < to
        invariant
            from <= i <= to <= v@.len(),
            r@ == v@.subrange(from as int, i as int),
        decreases to - i,
    {
        r.push(v[i]);
        proof {
            assert(v@.subrange(from as int, i as int).push(v@[i as int]) =~= v@.subrange(
                from as int,
                i as int + 1,
            ));
        }
        i = i + 1;
    }
    r
}

/// Whether `c` is one of the whitespace characters token splitting breaks
/// on.
fn is_ws_exec(c: char) -> (r: bool)
    ensures
        r == is_ws(c),
{
    c == ' ' || c == '\t' || c == '\n' || c == '\r' || c == '\u{b}' || c == '\u{c}'
}

/// The tokens of a text: its maximal whitespace-free runs, in order.
pub fn tokenize(content: &str) -> (r: Vec<String>)
    ensures
        r.deep_view() == split_ws(content@),
{
    let chars = crate::text::str_chars(content);
    proof {
        assert(chars@.skip(0) =~= content@);
    }
    split_tokens_from(&chars, 0)
}

impl PluginCommand {
    /// Extracts the command a chat message addresses to a plugin: the
    /// message must be a chat message, carry a sender identity, and its
    /// content must begin with the configured prefix.  The text after the
    /// prefix is split on runs of whitespace; a bare prefix yields a command
    /// with no tokens, not an absent command.
    pub fn try_from(prefix: &str, message: &Message) -> (r: Option<PluginCommand>)
        ensures
            r is Some <==> (message.command is Privmsg && message.prefix is Some
                && spec_starts_with(message.command->Privmsg_content@, prefix@)),
            r is Some ==> r->0.tokens.deep_view() == split_ws(
                message.command->Privmsg_content@.skip(prefix@.len() as int),
            ),
            r is Some ==> r->0.source@ == crate::message::spec_nick_of(message.prefix->0@),
            r is Some ==> r->0.target@ == message.command->Privmsg_target@,
    {
        let (target, content) = match &message.command {
            MessageCommand::Privmsg { target, content } => (target, content),
            _ => { return None; },
        };
        let source = match message.source_nickname() {
            Some(s) => s,
            None => { return None; },
        };
        let chars = crate::text::str_chars(content.as_str());
        let prefix_chars = crate::text::str_chars(prefix);
        if !crate::text::matches_at(&chars, &prefix_chars, 0) {
            proof {
                assert(content@.subrange(0, prefix@.len() as int) == content@.take(
                    prefix@.len() as int,
                ));
            }
            return None;
        }
        let tokens = split_tokens_from(&chars, prefix_chars.len());
        Some(PluginCommand { tokens, source, target: target.clone() })
    }
}

} // verus!
