//! The inbound protocol event the dispatch core works on: an immutable
//! value holding the sender identity, the command kind, the content and the
//! reply target.  The hosting process builds one per received frame.

use vstd::prelude::*;
use vstd::string::*;

verus! {

/// The kinds of protocol event the core reacts to.  Everything else is
/// carried as `Other` and only fanned out.
#[derive(Clone, Debug)]
pub enum MessageCommand {
    /// A chat message sent to `target` (a channel or the bot itself).
    Privmsg { target: String, content: String },
    /// Someone joined `channel`.
    Join { channel: String },
    /// Someone changed their nickname to `nickname`.
    Nick { nickname: String },
    /// Any other protocol event.
    Other,
}

/// One inbound protocol event.  `prefix` is the full sender identity as the
/// wire carries it, for instance `nick!user@host`.
#[derive(Clone, Debug)]
pub struct Message {
    pub prefix: Option<String>,
    pub command: MessageCommand,
}

/// The length of the nickname part of a sender identity: everything before
/// the first `'!'` or `'@'`.
pub open spec fn spec_nick_len(p: Seq<char>) -> int
    decreases p.len(),
{
    if p.len() == 0 {
        0
    } else if p[0] == '!' || p[0] == '@' {
        0
    } else {
        1 + spec_nick_len(p.drop_first())
    }
}

/// The nickname part of a sender identity.
pub open spec fn spec_nick_of(p: Seq<char>) -> Seq<char> {
    p.take(spec_nick_len(p))
}

/// The nickname part of a sender identity: everything before the first
/// `'!'` or `'@'`.
pub fn nick_of(p: &str) -> (r: String)
    ensures
        r@ == spec_nick_of(p@),
{
    let chars = crate::text::str_chars(p);
    let mut i: usize = 0;
    while i < chars.len()
        invariant
            0 <= i <= chars@.len(),
            chars@ == p@,
            forall|k: int| 0 <= k < i ==> p@[k] != '!' && p@[k] != '@',
        decreases chars.len() - i,
    {
        let c = chars[i];
        if c == '!' || c == '@' {
            proof {
                lemma_nick_len_at(p@, i as int);
            }
            return crate::text::chars_to_string(chars_prefix(&chars, i));
        }
        i = i + 1;
    }
    proof {
        lemma_nick_len_at_end(p@);
        assert(p@.take(p@.len() as int) =~= p@);
    }
    crate::text::chars_to_string(chars_prefix(&chars, chars.len()))
}

/// The first `n` characters of `v`.
fn chars_prefix(v: &Vec<char>, n: usize) -> (r: Vec<char>)
    requires
        n <= v@.len(),
    ensures
        r@ == v@.take(n as int),
{
    let mut r: Vec<char> = Vec::new();
    let mut i: usize = 0;
    while i < n
        invariant
            0 <= i <= n <= v@.len(),
            r@ == v@.take(i as int),
        decreases n - i,
    {
        r.push(v[i]);
        proof {
            assert(v@.take(i as int).push(v@[i as int]) =~= v@.take(i as int + 1));
        }
        i = i + 1;
    }
    r
}

/// If every character before `i` is ordinary and `p[i]` is a separator, the
/// nickname is exactly the first `i` characters.
proof fn lemma_nick_len_at(p: Seq<char>, i: int)
    requires
        0 <= i < p.len(),
        forall|k: int| 0 <= k < i ==> p[k] != '!' && p[k] != '@',
        p[i] == '!' || p[i] == '@',
    ensures
        spec_nick_len(p) == i,
    decreases i,
{
    if i == 0 {
    } else {
        assert forall|k: int| 0 <= k < i - 1 implies p.drop_first()[k] != '!' && p.drop_first()[k]
            != '@' by {
            assert(p.drop_first()[k] == p[k + 1]);
        }
        assert(p.drop_first()[i - 1] == p[i]);
        lemma_nick_len_at(p.drop_first(), i - 1);
    }
}

/// If no character of `p` is a separator, the nickname is all of `p`.
proof fn lemma_nick_len_at_end(p: Seq<char>)
    requires
        forall|k: int| 0 <= k < p.len() ==> p[k] != '!' && p[k] != '@',
    ensures
        spec_nick_len(p) == p.len(),
    decreases p.len(),
{
    if p.len() > 0 {
        assert forall|k: int|
            0 <= k < p.drop_first().len() implies p.drop_first()[k] != '!' && p.drop_first()[k]
            != '@' by {
            assert(p.drop_first()[k] == p[k + 1]);
        }
        lemma_nick_len_at_end(p.drop_first());
    }
}

impl Message {
    /// The nickname of the sender, if the event carries a sender identity.
    pub fn source_nickname(&self) -> (r: Option<String>)
        ensures
            r is Some <==> self.prefix is Some,
            r is Some ==> r->0@ == spec_nick_of(self.prefix->0@),
    {
        match &self.prefix {
            Some(p) => Some(nick_of(p.as_str())),
            None => None,
        }
    }

    /// The content of a chat message, or `None` for any other event.
    pub fn privmsg_content(&self) -> (r: Option<&String>)
        ensures
            r is Some <==> self.command is Privmsg,
            r is Some ==> r->0@ == self.command->Privmsg_content@,
    {
        match &self.command {
            MessageCommand::Privmsg { content, .. } => Some(content),
            _ => None,
        }
    }
}

} // verus!
