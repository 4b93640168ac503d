//! Frippy is an IRC bot core that runs plugins on each message received.
//!
//! The crate provides the dispatch engine that sits between a live chat
//! session and a set of pluggable command handlers: it rewrites relayed
//! messages, fans each message out to every registered plugin, parses
//! explicit user commands and routes each one to the plugin it names.

use vstd::prelude::*;

pub mod bridge;
pub mod command;
pub mod dispatch;
pub mod error;
pub mod message;
pub mod plugin;
pub mod randomizer;
pub mod text;

verus! {

/// The interface the dispatch engine and the plugins consume to talk to the
/// live chat session.  The hosting process implements it for its connection
/// type; the core never implements it itself.
pub trait FrippyClient: Sized {
    /// The nickname the session currently uses.
    fn current_nickname(&self) -> String;

    /// Sends a message to a user or a channel.
    fn send_privmsg(&self, target: &str, message: &str) -> Result<(), crate::error::FrippyError>;

    /// Sends a notice to a user or a channel.
    fn send_notice(&self, target: &str, message: &str) -> Result<(), crate::error::FrippyError>;

    /// Lists the channels the session is in, or `None` if unknown.
    fn list_channels(&self) -> Option<Vec<String>>;

    /// Lists the users of a channel, or `None` if unknown.
    fn list_users(&self, channel: &str) -> Option<Vec<String>>;
}

/// Everything one inbound message produced: whether the bridge dropped it,
/// each plugin's fan-out outcome, the deferred fan-out work, and the routed
/// command, if the message carried one.  The hosting process runs each unit
/// of work on a worker and logs the failed outcomes.
pub struct ProcessReport<P: crate::plugin::Plugin> {
    /// The bridge ignored the message: nothing else was done.
    pub dropped: bool,
    /// One entry per registered plugin, in registration order: its
    /// case-folded name and what its `execute` answered.
    pub outcomes: Vec<(String, crate::plugin::ExecutionStatus)>,
    /// One unit of deferred work per plugin that asked for a thread.
    pub deferred: Vec<crate::dispatch::Deferred<P>>,
    /// The routed command, when the message carried one that named a
    /// registered plugin.
    pub routed: Option<crate::dispatch::RoutedCommand<P>>,
    /// The message as the plugins saw it, after the bridge rewrite.
    pub rewritten: Ghost<Option<crate::message::Message>>,
}

/// What one dispatch round promises: `r` is the report of running the
/// pipeline with the registry `entries`, the command `prefix` and the
/// optional `bridge` on the inbound `message`, against the session `client`.
pub open spec fn spec_round<P: crate::plugin::Plugin>(
    entries: Seq<(Seq<char>, std::sync::Arc<P>)>,
    prefix: Seq<char>,
    bridge: Option<crate::bridge::BridgeConfig>,
    client: &<P as crate::plugin::Plugin>::Client,
    message: crate::message::Message,
    r: ProcessReport<P>,
) -> bool {
    &&& (r.dropped <==> (bridge is Some && crate::bridge::spec_applicable(message)
        && crate::bridge::spec_drops(
        bridge->0,
        crate::bridge::spec_msg_nick(message),
        message.command->Privmsg_content@,
    )))
    &&& (r.dropped ==> r.outcomes@.len() == 0 && r.deferred@.len() == 0 && r.routed is None
        && r.rewritten@ is None)
    &&& (!r.dropped ==> r.rewritten@ is Some)
    &&& (!r.dropped ==> (bridge is None ==> r.rewritten@->0 == message))
    &&& (!r.dropped ==> (bridge is Some ==> crate::bridge::spec_rewrites(
        bridge->0,
        message,
        r.rewritten@->0,
    )))
    &&& (!r.dropped ==> ({
        let m = r.rewritten@->0;
        &&& r.outcomes@.len() == entries.len()
        &&& (forall|i: int|
            0 <= i < r.outcomes@.len() ==> (#[trigger] r.outcomes@[i]).0@ == entries[i].0)
        &&& crate::dispatch::spec_probed(entries, client, m, r.outcomes@)
        &&& r.deferred@.map(|j: int, d: crate::dispatch::Deferred<P>| d.spec_name())
            == crate::dispatch::spec_thread_requests(r.outcomes@)
        &&& (forall|j: int|
            0 <= j < r.deferred@.len() ==> (#[trigger] r.deferred@[j]).spec_message() == m)
        &&& (forall|j: int|
            0 <= j < r.deferred@.len() ==> crate::dispatch::spec_lookup(
                entries,
                (#[trigger] r.deferred@[j]).spec_name(),
            ) == Some(r.deferred@[j].spec_plugin()))
    }))
    &&& (!r.dropped ==> ({
        let m = r.rewritten@->0;
        let parsed = m.command is Privmsg && m.prefix is Some
            && crate::command::spec_starts_with(m.command->Privmsg_content@, prefix);
        let toks = crate::command::split_ws(
            m.command->Privmsg_content@.skip(prefix.len() as int),
        );
        &&& (!parsed ==> r.routed is None)
        &&& ((parsed && toks.len() == 0) ==> r.routed is None)
        &&& ((parsed && toks.len() > 0) ==> {
            let key = crate::text::lower_of(toks[0]);
            &&& (r.routed is Some <==> crate::dispatch::spec_has_name(entries, key))
            &&& (r.routed is Some ==> Some(r.routed->0.spec_plugin())
                == crate::dispatch::spec_lookup(entries, key))
            &&& (r.routed is Some ==> r.routed->0.spec_name() == toks[0])
            &&& (r.routed is Some ==> r.routed->0.spec_command().tokens.deep_view()
                == toks.drop_first())
            &&& (r.routed is Some ==> r.routed->0.spec_command().source@
                == crate::message::spec_nick_of(m.prefix->0@))
            &&& (r.routed is Some ==> r.routed->0.spec_command().target@
                == m.command->Privmsg_target@)
        })
    }))
}

/// Runs the whole pipeline on one inbound message: the bridge rewrite first,
/// then — unless the bridge dropped the message — the command parse, the
/// fan-out over every registered plugin, and the routing of the parsed
/// command.  Fan-out and routing both see the rewritten message, never the
/// original.
pub fn process_msg<P: crate::plugin::Plugin>(
    client: &P::Client,
    plugins: &mut crate::dispatch::ThreadedPlugins<P>,
    prefix: &str,
    bridge: &Option<crate::bridge::BridgeConfig>,
    message: crate::message::Message,
) -> (r: ProcessReport<P>)
    requires
        old(plugins).wf(),
    ensures
        final(plugins).wf(),
        *final(plugins) == *old(plugins),
        spec_round(old(plugins).spec_entries(), prefix@, *bridge, client, message, r),
{
    let rewritten = match bridge {
        Some(cfg) => match cfg.apply(message) {
            Some(m) => m,
            None => {
                return ProcessReport {
                    dropped: true,
                    outcomes: Vec::new(),
                    deferred: Vec::new(),
                    routed: None,
                    rewritten: Ghost(None),
                };
            },
        },
        None => message,
    };
    let ghost m = rewritten;
    let command = crate::command::PluginCommand::try_from(prefix, &rewritten);
    let pair = plugins.execute_plugins(client, rewritten);
    let outcomes = pair.0;
    let deferred = pair.1;
    let routed = match command {
        Some(c) => plugins.handle_command(c),
        None => None,
    };
    ProcessReport { dropped: false, outcomes, deferred, routed, rewritten: Ghost(Some(m)) }
}

/// The bot which contains the main logic: the configured command prefix,
/// the optional bridge configuration, and the plugin registry.
pub struct Bot<'a, P: crate::plugin::Plugin> {
    prefix: &'a str,
    bridge: Option<crate::bridge::BridgeConfig>,
    plugins: crate::dispatch::ThreadedPlugins<P>,
}

impl<'a, P: crate::plugin::Plugin> Bot<'a, P> {
    /// The configured command prefix.
    pub closed spec fn spec_prefix(self) -> Seq<char> {
        self.prefix@
    }

    /// The bridge configuration, if one was set.
    pub closed spec fn spec_bridge(self) -> Option<crate::bridge::BridgeConfig> {
        self.bridge
    }

    /// The plugin registry.
    pub closed spec fn spec_entries(self) -> Seq<
        (Seq<char>, std::sync::Arc<P>),
    > {
        self.plugins.spec_entries()
    }

    /// A well-formed bot has a well-formed registry.
    pub open spec fn wf(self) -> bool {
        crate::dispatch::wf_entries(self.spec_entries())
    }

    /// Creates a `Bot` without any plugins and without a bridge.  To send
    /// commands to a plugin, a message has to start with the plugin's name
    /// prefixed by `cmd_prefix`.
    pub fn new(cmd_prefix: &'a str) -> (r: Bot<'a, P>)
        ensures
            r.wf(),
            r.spec_prefix() == cmd_prefix@,
            r.spec_bridge() is None,
            r.spec_entries().len() == 0,
    {
        Bot {
            prefix: cmd_prefix,
            bridge: None,
            plugins: crate::dispatch::ThreadedPlugins::new(),
        }
    }

    /// Sets the bridge configuration; every later message is rewritten by
    /// it before the plugins see it.
    pub fn set_bridge(&mut self, bridge: crate::bridge::BridgeConfig)
        ensures
            final(self).spec_bridge() == Some(bridge),
            final(self).spec_prefix() == old(self).spec_prefix(),
            final(self).spec_entries() == old(self).spec_entries(),
    {
        self.bridge = Some(bridge);
    }

    /// Adds the plugin: it takes part in every later fan-out and can be
    /// addressed under its case-folded name.
    pub fn add_plugin(&mut self, plugin: P)
        requires
            old(self).wf(),
        ensures
            final(self).wf(),
            final(self).spec_prefix() == old(self).spec_prefix(),
            final(self).spec_bridge() == old(self).spec_bridge(),
            exists|key: Seq<char>|
                #[trigger] crate::dispatch::spec_registered(
                    old(self).spec_entries(),
                    final(self).spec_entries(),
                    key,
                    plugin,
                ),
    {
        self.plugins.add(plugin);
        proof {
            let k = choose|key: Seq<char>|
                #[trigger] crate::dispatch::spec_registered(
                    old(self).plugins.spec_entries(),
                    self.plugins.spec_entries(),
                    key,
                    plugin,
                );
            assert(crate::dispatch::spec_registered(
                old(self).spec_entries(),
                self.spec_entries(),
                k,
                plugin,
            ));
        }
    }

    /// Removes a plugin based on its name; `Some` exactly when a plugin was
    /// registered under the case-folded name, and then exactly that one
    /// entry is removed.
    pub fn remove_plugin(&mut self, name: &str) -> (r: Option<()>)
        requires
            old(self).wf(),
        ensures
            final(self).wf(),
            final(self).spec_prefix() == old(self).spec_prefix(),
            final(self).spec_bridge() == old(self).spec_bridge(),
            r is Some <==> crate::dispatch::spec_has_name(
                old(self).spec_entries(),
                crate::text::lower_of(name@),
            ),
            final(self).spec_entries() == crate::dispatch::spec_unregister(
                old(self).spec_entries(),
                crate::text::lower_of(name@),
            ),
    {
        self.plugins.remove(name)
    }

    /// Runs the whole pipeline on one inbound message; see `process_msg`.
    pub fn process(&mut self, client: &P::Client, message: crate::message::Message) -> (r:
        ProcessReport<P>)
        requires
            old(self).wf(),
        ensures
            final(self).wf(),
            *final(self) == *old(self),
            spec_round(
                old(self).spec_entries(),
                old(self).spec_prefix(),
                old(self).spec_bridge(),
                client,
                message,
                r,
            ),
    {
        process_msg(client, &mut self.plugins, self.prefix, &self.bridge, message)
    }
}

} // verus!
