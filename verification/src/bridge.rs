//! The bridge rewriter: optional preprocessing that remaps the apparent
//! sender and content of messages a relay bot forwards, applied once per
//! message before the command parser and the dispatcher see it.
//!
//! The regular-expression work itself is done by the `regex` crate behind
//! trusted wrappers; the rewrite algorithm around it is verified.

use vstd::prelude::*;
use vstd::string::*;
use crate::message::{Message, MessageCommand};
use crate::text::is_zero_width_space;

verus! {

#[verifier::external_type_specification]
#[verifier::external_body]
pub struct ExRegex(regex::Regex);

/// Whether `regex::Regex::new` accepts the pattern.
pub uninterp spec fn re_valid(pat: Seq<char>) -> bool;

/// Whether the pattern matches anywhere in the text.
pub uninterp spec fn re_matches(pat: Seq<char>, text: Seq<char>) -> bool;

/// The text the named capture group captures when the pattern is applied to
/// the text: `None` when the pattern does not match or the group does not
/// participate in the match.
pub uninterp spec fn re_capture(pat: Seq<char>, text: Seq<char>, group: Seq<char>) -> Option<
    Seq<char>,
>;

/// Relies on regex::Regex::new: it returns `Ok` exactly when the pattern is
/// a valid regular expression within the default size limit.
#[verifier::external_body]
fn compile_regex(pat: &str) -> (r: Option<regex::Regex>)
    ensures
        r is Some <==> re_valid(pat@),
{
    regex::Regex::new(pat).ok()
}

/// A compiled regular expression together with the pattern text it was
/// compiled from; the only constructor compiles exactly that text.
#[derive(Debug)]
pub struct CompiledPattern {
    re: regex::Regex,
    source: String,
}

impl CompiledPattern {
    /// The pattern text this value was compiled from.
    pub closed spec fn spec_source(self) -> Seq<char> {
        self.source@
    }

    /// Compiles a pattern; `None` exactly when the pattern is invalid.
    pub fn new(pat: &str) -> (r: Option<CompiledPattern>)
        ensures
            r is Some <==> re_valid(pat@),
            r is Some ==> r->0.spec_source() == pat@,
    {
        match compile_regex(pat) {
            Some(re) => Some(CompiledPattern { re, source: pat.to_owned() }),
            None => None,
        }
    }

    /// Relies on regex::Regex::is_match: true exactly when the pattern
    /// matches anywhere in the text.  The `re` field was compiled from
    /// `source` by the only constructor, so the result is the match result
    /// of `source` on the text.
    #[verifier::external_body]
    pub(crate) fn is_match(&self, text: &str) -> (r: bool)
        ensures
            r == re_matches(self.spec_source(), text@),
    {
        self.re.is_match(text)
    }

    /// Relies on regex::Regex::captures and regex::Captures::name: the text
    /// the named group captured, `None` when the pattern does not match or
    /// the group did not participate.  The `re` field was compiled from
    /// `source` by the only constructor.
    #[verifier::external_body]
    pub(crate) fn capture(&self, text: &str, group: &str) -> (r: Option<String>)
        ensures
            r.deep_view() == re_capture(self.spec_source(), text@, group@),
    {
        self.re.captures(text).and_then(|caps| caps.name(group)).map(|m| m.as_str().to_owned())
    }
}

/// The optional relay-bridge configuration: named regex patterns and flags,
/// read once per message and never mutated by the core.
#[derive(Debug)]
pub struct BridgeConfig {
    relay_format: Option<CompiledPattern>,
    bridge_name: Option<String>,
    ignore: Option<CompiledPattern>,
    content: Option<CompiledPattern>,
    remove_zws: bool,
}

impl BridgeConfig {
    /// The pattern that recognises a relayed sender identity, if configured.
    pub closed spec fn spec_relay_format(self) -> Option<Seq<char>> {
        match self.relay_format {
            Some(p) => Some(p.spec_source()),
            None => None,
        }
    }

    /// The nickname of the bridge bot, if configured.
    pub closed spec fn spec_bridge_name(self) -> Option<Seq<char>> {
        match self.bridge_name {
            Some(n) => Some(n@),
            None => None,
        }
    }

    /// The pattern that drops a bridged message entirely, if configured.
    pub closed spec fn spec_ignore(self) -> Option<Seq<char>> {
        match self.ignore {
            Some(p) => Some(p.spec_source()),
            None => None,
        }
    }

    /// The pattern that extracts the real user and message, if configured.
    pub closed spec fn spec_content(self) -> Option<Seq<char>> {
        match self.content {
            Some(p) => Some(p.spec_source()),
            None => None,
        }
    }

    /// Whether zero width spaces are stripped from the derived user name.
    pub closed spec fn spec_remove_zws(self) -> bool {
        self.remove_zws
    }

    /// Builds a bridge configuration from pattern texts; `None` exactly when
    /// one of the given patterns is not a valid regular expression.
    pub fn new(
        relay_format: Option<&str>,
        bridge_name: Option<&str>,
        ignore: Option<&str>,
        content: Option<&str>,
        remove_zws: bool,
    ) -> (r: Option<BridgeConfig>)
        ensures
            r is Some <==> ((relay_format is Some ==> re_valid(relay_format->0@)) && (
            ignore is Some ==> re_valid(ignore->0@)) && (content is Some ==> re_valid(
                content->0@,
            ))),
            r is Some ==> r->0.spec_relay_format() == relay_format.deep_view(),
            r is Some ==> r->0.spec_bridge_name() == bridge_name.deep_view(),
            r is Some ==> r->0.spec_ignore() == ignore.deep_view(),
            r is Some ==> r->0.spec_content() == content.deep_view(),
            r is Some ==> r->0.spec_remove_zws() == remove_zws,
    {
        let relay_format_pat = match relay_format {
            Some(p) => match CompiledPattern::new(p) {
                Some(c) => Some(c),
                None => { return None; },
            },
            None => None,
        };
        let ignore_pat = match ignore {
            Some(p) => match CompiledPattern::new(p) {
                Some(c) => Some(c),
                None => { return None; },
            },
            None => None,
        };
        let content_pat = match content {
            Some(p) => match CompiledPattern::new(p) {
                Some(c) => Some(c),
                None => { return None; },
            },
            None => None,
        };
        let bridge_name_string = match bridge_name {
            Some(n) => Some(n.to_owned()),
            None => None,
        };
        Some(
            BridgeConfig {
                relay_format: relay_format_pat,
                bridge_name: bridge_name_string,
                ignore: ignore_pat,
                content: content_pat,
                remove_zws,
            },
        )
    }
}

/// Whether the rewriter looks at the message at all: it needs a chat message
/// with a sender identity.
pub open spec fn spec_applicable(message: Message) -> bool {
    message.command is Privmsg && message.prefix is Some
}

/// The user the relay-format pattern derives from the sender nickname.
pub open spec fn spec_bridge_user(cfg: BridgeConfig, nick: Seq<char>) -> Option<Seq<char>> {
    match cfg.spec_relay_format() {
        Some(pat) => re_capture(pat, nick, "username"@),
        None => None,
    }
}

/// Whether the message is treated as relayed: the relay-format pattern
/// derived a user, or the sender is the configured bridge bot.
pub open spec fn spec_gate(cfg: BridgeConfig, nick: Seq<char>) -> bool {
    spec_bridge_user(cfg, nick) is Some || cfg.spec_bridge_name() == Some(nick)
}

/// Whether the message is dropped entirely: it is treated as relayed and the
/// ignore pattern matches its content.
pub open spec fn spec_drops(cfg: BridgeConfig, nick: Seq<char>, content: Seq<char>) -> bool {
    spec_gate(cfg, nick) && match cfg.spec_ignore() {
        Some(pat) => re_matches(pat, content),
        None => false,
    }
}

/// Whether the content pattern matches the message content.
pub open spec fn spec_content_matches(cfg: BridgeConfig, content: Seq<char>) -> bool {
    match cfg.spec_content() {
        Some(pat) => re_matches(pat, content),
        None => false,
    }
}

/// The user the whole rewrite derives: the relay-format capture wins, the
/// content-pattern capture is second.
pub open spec fn spec_derived_user(cfg: BridgeConfig, nick: Seq<char>, content: Seq<char>) -> Option<
    Seq<char>,
> {
    match spec_bridge_user(cfg, nick) {
        Some(u) => Some(u),
        None => if spec_content_matches(cfg, content) {
            re_capture(cfg.spec_content()->0, content, "username"@)
        } else {
            None
        },
    }
}

/// The derived user after the optional zero-width-space stripping.
pub open spec fn spec_final_user(cfg: BridgeConfig, nick: Seq<char>, content: Seq<char>) -> Option<
    Seq<char>,
> {
    match spec_derived_user(cfg, nick, content) {
        Some(u) => Some(
            if cfg.spec_remove_zws() {
                u.filter(|c: char| !is_zero_width_space(c))
            } else {
                u
            },
        ),
        None => None,
    }
}

/// The message text the content pattern derives; the original content is
/// kept when the pattern does not match or captures no message.
pub open spec fn spec_derived_message(cfg: BridgeConfig, content: Seq<char>) -> Option<Seq<char>> {
    if spec_content_matches(cfg, content) {
        re_capture(cfg.spec_content()->0, content, "message"@)
    } else {
        None
    }
}

/// The content of the rewritten message.
pub open spec fn spec_new_content(cfg: BridgeConfig, content: Seq<char>) -> Seq<char> {
    match spec_derived_message(cfg, content) {
        Some(m) => m,
        None => content,
    }
}

/// The nickname of the message's sender.
pub open spec fn spec_msg_nick(message: Message) -> Seq<char> {
    crate::message::spec_nick_of(message.prefix->0@)
}

/// How a rewritten message `m` relates to the original `message`: untouched
/// when the rewriter does not look at it or the message is not treated as
/// relayed; otherwise the content is the derived one and, when a user was
/// derived, every literal occurrence of the original nickname in the sender
/// identity is replaced by it.
pub open spec fn spec_rewrites(cfg: BridgeConfig, message: Message, m: Message) -> bool {
    if !spec_applicable(message) || !spec_gate(cfg, spec_msg_nick(message)) {
        m == message
    } else {
        let nick = spec_msg_nick(message);
        let content = message.command->Privmsg_content@;
        &&& m.command is Privmsg
        &&& m.command->Privmsg_target@ == message.command->Privmsg_target@
        &&& m.command->Privmsg_content@ == spec_new_content(cfg, content)
        &&& match spec_final_user(cfg, nick, content) {
            Some(u) => m.prefix is Some && m.prefix->0@ == crate::text::spec_replace(
                message.prefix->0@,
                nick,
                u,
            ),
            None => m.prefix == message.prefix,
        }
    }
}

impl BridgeConfig {
    /// Applies the bridge rewrite to one message, before the command parser
    /// and the dispatcher see it.  `None` means the message is dropped
    /// entirely: it must reach neither of them.  Otherwise the returned
    /// message carries the derived sender identity (every literal occurrence
    /// of the original nickname in the identity replaced by the derived
    /// user) and the derived content.
    pub fn apply(&self, message: Message) -> (r: Option<Message>)
        ensures
            r is None <==> (spec_applicable(message) && spec_drops(
                *self,
                spec_msg_nick(message),
                message.command->Privmsg_content@,
            )),
            r is Some ==> spec_rewrites(*self, message, r->0),
    {
        let (target, content) = match &message.command {
            MessageCommand::Privmsg { target, content } => (target.clone(), content.clone()),
            _ => { return Some(message); },
        };
        let prefix_string = match &message.prefix {
            Some(p) => p.clone(),
            None => { return Some(message); },
        };
        let nick = crate::message::nick_of(prefix_string.as_str());
        let mut bridge_user: Option<String> = match &self.relay_format {
            Some(p) => p.capture(nick.as_str(), "username"),
            None => None,
        };
        let gate = bridge_user.is_some() || match &self.bridge_name {
            Some(n) => *n == nick,
            None => false,
        };
        if !gate {
            return Some(message);
        }
        if let Some(ignore_pat) = &self.ignore {
            if ignore_pat.is_match(content.as_str()) {
                return None;
            }
        }
        let mut bridge_message: Option<String> = None;
        if let Some(content_pat) = &self.content {
            if content_pat.is_match(content.as_str()) {
                if bridge_user.is_none() {
                    bridge_user = content_pat.capture(content.as_str(), "username");
                }
                bridge_message = content_pat.capture(content.as_str(), "message");
            }
        }
        let mut message = message;
        if let Some(user) = bridge_user {
            let user = if self.remove_zws {
                crate::text::remove_zero_width_spaces(user.as_str())
            } else {
                user
            };
            message.prefix = Some(
                crate::text::replace_all(prefix_string.as_str(), nick.as_str(), user.as_str()),
            );
        }
        if let Some(bm) = bridge_message {
            message.command = MessageCommand::Privmsg { target, content: bm };
        }
        Some(message)
    }
}

} // verus!
