//! The dispatcher: it owns the plugin registry, fans every message out to
//! each registered plugin in registration order, and routes every parsed
//! command to exactly the plugin the command names.
//!
//! Thread handling is split off: the dispatcher decides the work and hands
//! back `Deferred` and `RoutedCommand` items; the hosting process runs each
//! one on a worker.  Both can only be built here, so a worker can only ever
//! run work the dispatcher decided.

use std::sync::Arc;
use vstd::prelude::*;
use vstd::string::*;
use crate::command::PluginCommand;
use crate::error::FrippyError;
use crate::message::Message;
use crate::plugin::{ExecutionStatus, Plugin};
use crate::text::{lower_of, to_lowercase};

verus! {

/// Relies on Arc::clone (std): the clone is a new pointer to the same value.
#[verifier::external_body]
fn arc_clone<T>(a: &Arc<T>) -> (r: Arc<T>)
    ensures
        r == *a,
{
    Arc::clone(a)
}

/// Relies on Arc::as_ref (std): a reference to the shared value behind the
/// pointer.
#[verifier::external_body]
fn arc_borrow<T>(a: &Arc<T>) -> (r: &T)
    ensures
        *r == *a,
{
    a.as_ref()
}

/// One registry: the case-folded plugin names, each with its shared plugin,
/// in registration order.
pub open spec fn entry_names<P: Plugin>(s: Seq<(Seq<char>, Arc<P>)>) -> Seq<Seq<char>> {
    s.map(|i: int, e: (Seq<char>, Arc<P>)| e.0)
}

/// A well-formed registry holds each name at most once.
pub open spec fn wf_entries<P: Plugin>(s: Seq<(Seq<char>, Arc<P>)>) -> bool {
    forall|i: int, j: int| 0 <= i < j < s.len() ==> (#[trigger] s[i]).0 != (#[trigger] s[j]).0
}

/// Whether the registry holds an entry under `name`.
pub open spec fn spec_has_name<P: Plugin>(s: Seq<(Seq<char>, Arc<P>)>, name: Seq<char>) -> bool {
    exists|i: int| 0 <= i < s.len() && (#[trigger] s[i]).0 == name
}

/// The index of the entry under `name`, when there is one.
pub open spec fn spec_index_of<P: Plugin>(s: Seq<(Seq<char>, Arc<P>)>, name: Seq<char>) -> int {
    choose|i: int| 0 <= i < s.len() && (#[trigger] s[i]).0 == name
}

/// The plugin registered under `name`, if any.
pub open spec fn spec_lookup<P: Plugin>(s: Seq<(Seq<char>, Arc<P>)>, name: Seq<char>) -> Option<
    Arc<P>,
> {
    if spec_has_name(s, name) {
        Some(s[spec_index_of(s, name)].1)
    } else {
        None
    }
}

/// The registry after registering `plugin` under `name`: a fresh name is
/// appended, an existing one has its plugin replaced in place.
pub open spec fn spec_register<P: Plugin>(
    s: Seq<(Seq<char>, Arc<P>)>,
    name: Seq<char>,
    plugin: Arc<P>,
) -> Seq<(Seq<char>, Arc<P>)> {
    if spec_has_name(s, name) {
        s.update(spec_index_of(s, name), (name, plugin))
    } else {
        s.push((name, plugin))
    }
}

/// The registry after unregistering `name`: exactly that entry is removed,
/// an unknown name changes nothing.
pub open spec fn spec_unregister<P: Plugin>(
    s: Seq<(Seq<char>, Arc<P>)>,
    name: Seq<char>,
) -> Seq<(Seq<char>, Arc<P>)> {
    if spec_has_name(s, name) {
        s.remove(spec_index_of(s, name))
    } else {
        s
    }
}

/// How a registry `news` relates to `olds` after registering `plugin` under
/// `key`: a fresh key is appended, an existing one has its plugin replaced
/// in place, and nothing else changes.
pub open spec fn spec_registered<P: Plugin>(
    olds: Seq<(Seq<char>, Arc<P>)>,
    news: Seq<(Seq<char>, Arc<P>)>,
    key: Seq<char>,
    plugin: P,
) -> bool {
    &&& spec_has_name(news, key)
    &&& (!spec_has_name(olds, key) ==> news.len() == olds.len() + 1 && (forall|i: int|
        0 <= i < olds.len() ==> news[i] == olds[i]) && news[olds.len() as int].0 == key
        && news[olds.len() as int].1 == plugin)
    &&& (spec_has_name(olds, key) ==> news.len() == olds.len() && (forall|i: int|
        0 <= i < olds.len() && i != spec_index_of(olds, key) ==> news[i] == olds[i])
        && news[spec_index_of(olds, key)].0 == key && news[spec_index_of(olds, key)].1 == plugin)
}

/// In a well-formed registry the entry found at any index is the one lookup
/// returns for its name.
pub proof fn lemma_lookup_at<P: Plugin>(s: Seq<(Seq<char>, Arc<P>)>, i: int)
    requires
        wf_entries(s),
        0 <= i < s.len(),
    ensures
        spec_has_name(s, s[i].0),
        spec_index_of(s, s[i].0) == i,
        spec_lookup(s, s[i].0) == Some(s[i].1),
{
    assert(spec_has_name(s, s[i].0));
    let j = spec_index_of(s, s[i].0);
    assert(0 <= j < s.len() && s[j].0 == s[i].0);
    if i < j {
        assert(s[i].0 != s[j].0);
    } else if j < i {
        assert(s[j].0 != s[i].0);
    }
}

/// Law: registering a plugin under a fresh name adds exactly one entry, and
/// unregistering that name afterwards removes exactly that entry and
/// restores the registry.  `spec_registered` is what `add_named` ensures and
/// `spec_unregister` is what `remove` ensures, so the law composes the two
/// calls.
pub proof fn lemma_register_then_unregister<P: Plugin>(
    s: Seq<(Seq<char>, Arc<P>)>,
    s2: Seq<(Seq<char>, Arc<P>)>,
    key: Seq<char>,
    plugin: P,
)
    requires
        wf_entries(s),
        !spec_has_name(s, key),
        spec_registered(s, s2, key, plugin),
    ensures
        s2.len() == s.len() + 1,
        spec_has_name(s2, key),
        spec_lookup(s2, key) is Some,
        spec_unregister(s2, key) == s,
{
    assert(s2[s.len() as int].0 == key);
    let i = spec_index_of(s2, key);
    assert(0 <= i < s2.len() && s2[i].0 == key);
    if i < s.len() {
        assert(s2[i] == s[i]);
        assert(spec_has_name(s, key));
    }
    assert(i == s.len());
    assert(spec_unregister(s2, key) =~= s);
}

/// Law: unregistering a name that is not registered leaves the registry
/// unchanged.
pub proof fn lemma_unregister_unknown<P: Plugin>(s: Seq<(Seq<char>, Arc<P>)>, name: Seq<char>)
    requires
        !spec_has_name(s, name),
    ensures
        spec_unregister(s, name) == s,
{
}

/// Law: lookup is case-insensitive.  Two names that fold to the same key
/// find the same plugin; the registry is always addressed through
/// `lower_of`.
pub proof fn lemma_lookup_case_insensitive<P: Plugin>(
    s: Seq<(Seq<char>, Arc<P>)>,
    m: Seq<char>,
    n: Seq<char>,
)
    requires
        lower_of(m) == lower_of(n),
    ensures
        spec_lookup(s, lower_of(m)) == spec_lookup(s, lower_of(n)),
{
}

/// One unit of deferred fan-out work: a plugin that answered
/// `RequiresThread` for a message, to be run on a worker.  Only
/// `execute_plugins` builds these, so `execute_threaded` can only run after
/// `execute` asked for a thread for that exact message.
pub struct Deferred<P: Plugin> {
    name: String,
    plugin: Arc<P>,
    message: Arc<Message>,
}

impl<P: Plugin> Deferred<P> {
    /// The registry name of the plugin this work belongs to.
    pub closed spec fn spec_name(&self) -> Seq<char> {
        self.name@
    }

    /// The plugin this work belongs to.
    pub closed spec fn spec_plugin(&self) -> Arc<P> {
        self.plugin
    }

    /// The message the plugin asked a thread for.
    pub closed spec fn spec_message(&self) -> Arc<Message> {
        self.message
    }

    /// The registry name of the plugin, for naming the worker.
    pub fn name(&self) -> (r: &String)
        ensures
            r@ == self.spec_name(),
    {
        &self.name
    }

    /// Runs the deferred work: `execute_threaded` on the carried plugin,
    /// with the carried message — the one the plugin asked a thread for.
    /// The result is whatever that call can answer; any error is the
    /// plugin's own, and the caller logs it and drops it.
    pub fn run(self, client: &P::Client) -> (r: Result<(), FrippyError>)
        ensures
            exists|p: P, m: Message|
                p == self.spec_plugin() && m == self.spec_message() && #[trigger] call_ensures(
                    P::execute_threaded,
                    (&p, client, &m),
                    r,
                ),
    {
        let plugin_ref = arc_borrow(&self.plugin);
        let message_ref = arc_borrow(&self.message);
        let r = plugin_ref.execute_threaded(client, message_ref);
        proof {
            assert(call_ensures(P::execute_threaded, (plugin_ref, client, message_ref), r));
        }
        r
    }
}

/// One routed command: the plugin whose name the command's first token
/// folded to, with that token removed, to be run on a worker.  Only
/// `handle_command` builds these.
pub struct RoutedCommand<P: Plugin> {
    name: String,
    plugin: Arc<P>,
    command: PluginCommand,
}

impl<P: Plugin> RoutedCommand<P> {
    /// The first token of the original command, as the sender wrote it.
    pub closed spec fn spec_name(&self) -> Seq<char> {
        self.name@
    }

    /// The plugin the command is routed to.
    pub closed spec fn spec_plugin(&self) -> Arc<P> {
        self.plugin
    }

    /// The command to hand over, with the plugin's name already removed.
    pub closed spec fn spec_command(&self) -> PluginCommand {
        self.command
    }

    /// The first token of the original command, for naming the worker.
    pub fn name(&self) -> (r: &String)
        ensures
            r@ == self.spec_name(),
    {
        &self.name
    }

    /// Runs the routed command: `command` on the matched plugin, handing it
    /// the carried command.  The result is whatever that call can answer;
    /// any error is the plugin's own, and the caller logs it and drops it.
    pub fn run(self, client: &P::Client) -> (r: Result<(), FrippyError>)
        ensures
            exists|p: P|
                p == self.spec_plugin() && #[trigger] call_ensures(
                    P::command,
                    (&p, client, self.spec_command()),
                    r,
                ),
    {
        let ghost handed = self.spec_command();
        let plugin_ref = arc_borrow(&self.plugin);
        let r = plugin_ref.command(client, self.command);
        proof {
            assert(call_ensures(P::command, (plugin_ref, client, handed), r));
        }
        r
    }
}

/// The status is an answer a genuine `execute` call on this plugin, with
/// this client and this message, can give: it satisfies the call's
/// postcondition relation.
pub open spec fn spec_probe_of<P: Plugin>(
    plugin: Arc<P>,
    client: &P::Client,
    message: Message,
    status: ExecutionStatus,
) -> bool {
    exists|p: P, m: Message|
        p == plugin && m == message && #[trigger] call_ensures(
            P::execute,
            (&p, client, &m),
            status,
        )
}

/// Every recorded outcome came from probing the plugin registered at its
/// index, with this client and this message.
pub open spec fn spec_probed<P: Plugin>(
    entries: Seq<(Seq<char>, Arc<P>)>,
    client: &P::Client,
    message: Message,
    outcomes: Seq<(String, ExecutionStatus)>,
) -> bool {
    forall|i: int|
        0 <= i < outcomes.len() ==> spec_probe_of(
            entries[i].1,
            client,
            message,
            (#[trigger] outcomes[i]).1,
        )
}

/// The names of the plugins that asked for a thread, in fan-out order.
pub open spec fn spec_thread_requests(outcomes: Seq<(String, ExecutionStatus)>) -> Seq<Seq<char>>
    decreases outcomes.len(),
{
    if outcomes.len() == 0 {
        Seq::empty()
    } else {
        let rest = spec_thread_requests(outcomes.drop_last());
        if outcomes.last().1 is RequiresThread {
            rest.push(outcomes.last().0@)
        } else {
            rest
        }
    }
}

/// The plugin registry of one dispatcher, keyed by case-folded plugin name,
/// in registration order.
pub struct ThreadedPlugins<P: Plugin> {
    plugins: Vec<(String, Arc<P>)>,
}

impl<P: Plugin> ThreadedPlugins<P> {
    /// The registry as a sequence of (case-folded name, plugin) pairs, in
    /// registration order.
    pub closed spec fn spec_entries(self) -> Seq<(Seq<char>, Arc<P>)> {
        self.plugins@.map(|i: int, e: (String, Arc<P>)| (e.0@, e.1))
    }

    /// A well-formed registry holds each folded name at most once.
    pub open spec fn wf(self) -> bool {
        wf_entries(self.spec_entries())
    }

    /// An empty registry.
    pub fn new() -> (r: ThreadedPlugins<P>)
        ensures
            r.wf(),
            r.spec_entries() == Seq::<(Seq<char>, Arc<P>)>::empty(),
    {
        let r = ThreadedPlugins { plugins: Vec::new() };
        proof {
            assert(r.spec_entries() =~= Seq::<(Seq<char>, Arc<P>)>::empty());
        }
        r
    }

    /// How many plugins are registered.
    pub fn len(&self) -> (r: usize)
        ensures
            r == self.spec_entries().len(),
    {
        self.plugins.len()
    }

    /// The case-folded names of the registered plugins, in registration
    /// order.
    pub fn names(&self) -> (r: Vec<String>)
        ensures
            r.deep_view() == entry_names(self.spec_entries()),
    {
        let mut r: Vec<String> = Vec::new();
        let mut i: usize = 0;
        while i < self.plugins.len()
            invariant
                0 <= i <= self.plugins@.len(),
                r.deep_view() =~= entry_names(self.spec_entries()).take(i as int),
            decreases self.plugins@.len() - i,
        {
            r.push(self.plugins[i].0.clone());
            proof {
                assert(r.deep_view() =~= entry_names(self.spec_entries()).take(i as int).push(
                    self.spec_entries()[i as int].0,
                ));
                assert(entry_names(self.spec_entries()).take(i as int).push(
                    self.spec_entries()[i as int].0,
                ) =~= entry_names(self.spec_entries()).take(i as int + 1));
            }
            i = i + 1;
        }
        proof {
            assert(entry_names(self.spec_entries()).take(self.plugins@.len() as int)
                =~= entry_names(self.spec_entries()));
        }
        r
    }

    /// The index of the entry under the folded name, if any.
    fn find(&self, folded: &String) -> (r: Option<usize>)
        requires
            self.wf(),
        ensures
            r is Some <==> spec_has_name(self.spec_entries(), folded@),
            r is Some ==> r->0 == spec_index_of(self.spec_entries(), folded@)
                && self.spec_entries()[r->0 as int].0 == folded@,
    {
        let mut i: usize = 0;
        while i < self.plugins.len()
            invariant
                self.wf(),
                0 <= i <= self.plugins@.len(),
                forall|k: int| 0 <= k < i ==> (#[trigger] self.spec_entries()[k]).0 != folded@,
            decreases self.plugins@.len() - i,
        {
            if self.plugins[i].0 == *folded {
                proof {
                    lemma_lookup_at(self.spec_entries(), i as int);
                }
                return Some(i);
            }
            i = i + 1;
        }
        proof {
            if spec_has_name(self.spec_entries(), folded@) {
                let j = spec_index_of(self.spec_entries(), folded@);
                assert(0 <= j < self.spec_entries().len() && self.spec_entries()[j].0 == folded@);
            }
        }
        None
    }

    /// Registers the plugin under the case-folded given name.  A fresh name
    /// is appended in registration order; re-registering a name replaces
    /// that plugin in place.
    pub fn add_named(&mut self, name: &str, plugin: P)
        requires
            old(self).wf(),
        ensures
            final(self).wf(),
            spec_registered(
                old(self).spec_entries(),
                final(self).spec_entries(),
                lower_of(name@),
                plugin,
            ),
    {
        let folded = to_lowercase(name);
        let ghost key = folded@;
        let safe_plugin = Arc::new(plugin);
        let ghost sp = safe_plugin;
        let found = self.find(&folded);
        match found {
            Some(i) => {
                self.plugins.remove(i);
                self.plugins.insert(i, (folded, safe_plugin));
                proof {
                    let olds = old(self).spec_entries();
                    assert(self.spec_entries() =~= olds.update(i as int, (key, sp)));
                    assert(self.spec_entries() == spec_register(olds, key, sp));
                    lemma_register_wf(olds, key, sp);
                    assert(self.spec_entries()[i as int].0 == key);
                    assert(spec_registered(olds, self.spec_entries(), key, plugin));
                }
            },
            None => {
                self.plugins.push((folded, safe_plugin));
                proof {
                    let olds = old(self).spec_entries();
                    assert(self.spec_entries() =~= olds.push((key, sp)));
                    assert(self.spec_entries() == spec_register(olds, key, sp));
                    lemma_register_wf(olds, key, sp);
                    assert(self.spec_entries()[olds.len() as int].0 == key);
                    assert(spec_registered(olds, self.spec_entries(), key, plugin));
                }
            },
        }
    }

    /// Registers a plugin under its own case-folded name, as `add_named`
    /// does with the name the plugin reports.
    pub fn add(&mut self, plugin: P)
        requires
            old(self).wf(),
        ensures
            final(self).wf(),
            exists|key: Seq<char>|
                #[trigger] spec_registered(
                    old(self).spec_entries(),
                    final(self).spec_entries(),
                    key,
                    plugin,
                ),
    {
        let name = plugin.name();
        self.add_named(name.as_str(), plugin);
    }

    /// Unregisters the plugin under the case-folded given name.  `Some`
    /// exactly when such a plugin was registered; exactly that one entry is
    /// removed.  An unknown name changes nothing and answers `None`.
    pub fn remove(&mut self, name: &str) -> (r: Option<()>)
        requires
            old(self).wf(),
        ensures
            final(self).wf(),
            r is Some <==> spec_has_name(old(self).spec_entries(), lower_of(name@)),
            final(self).spec_entries() == spec_unregister(
                old(self).spec_entries(),
                lower_of(name@),
            ),
    {
        let folded = to_lowercase(name);
        let found = self.find(&folded);
        match found {
            Some(i) => {
                self.plugins.remove(i);
                proof {
                    let olds = old(self).spec_entries();
                    assert(self.spec_entries() =~= olds.remove(i as int));
                    lemma_unregister_wf(olds, lower_of(name@));
                }
                Some(())
            },
            None => None,
        }
    }

    /// Fans one message out: `execute` is called on every registered plugin
    /// in registration order, and every plugin is probed whatever the
    /// others answered — no plugin's failure affects another.  The first
    /// result lists each plugin's outcome in order; the second holds one
    /// unit of deferred work for exactly the plugins that asked for a
    /// thread, each carrying exactly this message.
    pub fn execute_plugins(&mut self, client: &P::Client, message: Message) -> (r: (
        Vec<(String, ExecutionStatus)>,
        Vec<Deferred<P>>,
    ))
        requires
            old(self).wf(),
        ensures
            *final(self) == *old(self),
            r.0@.len() == old(self).spec_entries().len(),
            forall|i: int|
                0 <= i < r.0@.len() ==> (#[trigger] r.0@[i]).0@ == old(self).spec_entries()[i].0,
            spec_probed(old(self).spec_entries(), client, message, r.0@),
            r.1@.map(|j: int, d: Deferred<P>| d.spec_name()) == spec_thread_requests(r.0@),
            forall|j: int| 0 <= j < r.1@.len() ==> (#[trigger] r.1@[j]).spec_message() == message,
            forall|j: int|
                0 <= j < r.1@.len() ==> spec_lookup(
                    old(self).spec_entries(),
                    (#[trigger] r.1@[j]).spec_name(),
                ) == Some(r.1@[j].spec_plugin()),
    {
        let shared = Arc::new(message);
        let mut outcomes: Vec<(String, ExecutionStatus)> = Vec::new();
        let mut deferred: Vec<Deferred<P>> = Vec::new();
        let mut i: usize = 0;
        proof {
            assert(deferred@.map(|j: int, d: Deferred<P>| d.spec_name()) =~= spec_thread_requests(
                outcomes@,
            ));
        }
        while i < self.plugins.len()
            invariant
                *self == *old(self),
                self.wf(),
                shared == message,
                0 <= i <= self.plugins@.len(),
                outcomes@.len() == i,
                forall|k: int|
                    0 <= k < i ==> (#[trigger] outcomes@[k]).0@ == self.spec_entries()[k].0,
                spec_probed(self.spec_entries(), client, message, outcomes@),
                deferred@.map(|j: int, d: Deferred<P>| d.spec_name()) == spec_thread_requests(
                    outcomes@,
                ),
                forall|j: int|
                    0 <= j < deferred@.len() ==> (#[trigger] deferred@[j]).spec_message()
                        == message,
                forall|j: int|
                    0 <= j < deferred@.len() ==> spec_lookup(
                        self.spec_entries(),
                        (#[trigger] deferred@[j]).spec_name(),
                    ) == Some(deferred@[j].spec_plugin()),
            decreases self.plugins@.len() - i,
        {
            let entry_name = self.plugins[i].0.clone();
            let plugin = arc_clone(&self.plugins[i].1);
            let plugin_ref = arc_borrow(&plugin);
            let message_ref = arc_borrow(&shared);
            let status = plugin_ref.execute(client, message_ref);
            proof {
                assert(call_ensures(P::execute, (plugin_ref, client, message_ref), status));
            }
            let requires_thread = match &status {
                ExecutionStatus::RequiresThread => true,
                _ => false,
            };
            let ghost deferred_names0 = deferred@.map(|j: int, d: Deferred<P>| d.spec_name());
            if requires_thread {
                proof {
                    lemma_lookup_at(self.spec_entries(), i as int);
                }
                deferred.push(
                    Deferred {
                        name: entry_name.clone(),
                        plugin: arc_clone(&plugin),
                        message: arc_clone(&shared),
                    },
                );
            }
            let ghost outcomes0 = outcomes@;
            let ghost o = (entry_name, status);
            outcomes.push((entry_name, status));
            proof {
                assert(outcomes@.drop_last() =~= outcomes0);
                assert(outcomes@.last() == o);
                assert(outcomes@[i as int] == o);
                assert(call_ensures(P::execute, (plugin_ref, client, message_ref), o.1));
                assert(spec_probe_of(self.spec_entries()[i as int].1, client, message, o.1));
                assert forall|k: int| 0 <= k < outcomes@.len() implies spec_probe_of(
                    self.spec_entries()[k].1,
                    client,
                    message,
                    (#[trigger] outcomes@[k]).1,
                ) by {
                    if k < i {
                        assert(outcomes@[k] == outcomes0[k]);
                    }
                }
                assert(requires_thread == (o.1 is RequiresThread));
                if requires_thread {
                    assert(spec_thread_requests(outcomes@) == spec_thread_requests(outcomes0).push(
                        o.0@,
                    ));
                    assert(deferred@.map(|j: int, d: Deferred<P>| d.spec_name())
                        =~= deferred_names0.push(o.0@));
                } else {
                    assert(spec_thread_requests(outcomes@) == spec_thread_requests(outcomes0));
                }
                assert(spec_thread_requests(outcomes@) == deferred@.map(
                    |j: int, d: Deferred<P>| d.spec_name(),
                ));
            }
            i = i + 1;
        }
        (outcomes, deferred)
    }

    /// Routes one parsed command: the first token is case-folded and looked
    /// up; an unknown or absent name is silently ignored, by design.
    /// Otherwise the one matched plugin is handed the command with the first
    /// token removed, as one unit of work to run on a worker.
    pub fn handle_command(&mut self, command: PluginCommand) -> (r: Option<RoutedCommand<P>>)
        requires
            old(self).wf(),
        ensures
            *final(self) == *old(self),
            command.tokens@.len() == 0 ==> r is None,
            command.tokens@.len() > 0 ==> {
                let key = lower_of(command.tokens.deep_view()[0]);
                &&& (r is Some <==> spec_has_name(old(self).spec_entries(), key))
                &&& (r is Some ==> Some(r->0.spec_plugin()) == spec_lookup(
                    old(self).spec_entries(),
                    key,
                ))
                &&& (r is Some ==> r->0.spec_name() == command.tokens.deep_view()[0])
                &&& (r is Some ==> r->0.spec_command().tokens.deep_view()
                    == command.tokens.deep_view().drop_first())
                &&& (r is Some ==> r->0.spec_command().source == command.source)
                &&& (r is Some ==> r->0.spec_command().target == command.target)
            },
    {
        if command.tokens.len() == 0 {
            return None;
        }
        let folded = to_lowercase(command.tokens[0].as_str());
        proof {
            assert(command.tokens.deep_view()[0] == command.tokens@[0]@);
        }
        let found = self.find(&folded);
        match found {
            Some(i) => {
                let plugin = arc_clone(&self.plugins[i].1);
                proof {
                    lemma_lookup_at(self.spec_entries(), i as int);
                }
                let mut rest = command;
                let name = rest.tokens.remove(0);
                proof {
                    let dv0 = command.tokens.deep_view();
                    let dv1 = rest.tokens.deep_view();
                    assert forall|k: int| 0 <= k < dv1.len() implies dv1[k] == dv0.drop_first()[
                        k
                    ] by {
                        assert(rest.tokens@[k] == command.tokens@[k + 1]);
                    }
                    assert(dv1 =~= dv0.drop_first());
                }
                Some(RoutedCommand { name, plugin, command: rest })
            },
            None => None,
        }
    }
}

/// Registering keeps a well-formed registry well formed.
proof fn lemma_register_wf<P: Plugin>(
    s: Seq<(Seq<char>, Arc<P>)>,
    name: Seq<char>,
    plugin: Arc<P>,
)
    requires
        wf_entries(s),
    ensures
        wf_entries(spec_register(s, name, plugin)),
{
    let s2 = spec_register(s, name, plugin);
    if spec_has_name(s, name) {
        let i = spec_index_of(s, name);
        assert(0 <= i < s.len() && s[i].0 == name);
        assert forall|a: int, b: int| 0 <= a < b < s2.len() implies (#[trigger] s2[a]).0 != (
        #[trigger] s2[b]).0 by {
            assert(s2[a].0 == s[a].0);
            assert(s2[b].0 == s[b].0);
        }
    } else {
        assert forall|a: int, b: int| 0 <= a < b < s2.len() implies (#[trigger] s2[a]).0 != (
        #[trigger] s2[b]).0 by {
            if b == s.len() as int {
                assert(s2[a].0 == s[a].0);
                assert(!spec_has_name(s, name));
                assert(s[a].0 != name);
            } else {
                assert(s2[a].0 == s[a].0);
                assert(s2[b].0 == s[b].0);
            }
        }
    }
}

/// Unregistering keeps a well-formed registry well formed.
proof fn lemma_unregister_wf<P: Plugin>(s: Seq<(Seq<char>, Arc<P>)>, name: Seq<char>)
    requires
        wf_entries(s),
    ensures
        wf_entries(spec_unregister(s, name)),
{
    let s2 = spec_unregister(s, name);
    if spec_has_name(s, name) {
        let i = spec_index_of(s, name);
        assert forall|a: int, b: int| 0 <= a < b < s2.len() implies (#[trigger] s2[a]).0 != (
        #[trigger] s2[b]).0 by {
            let a0 = if a < i {
                a
            } else {
                a + 1
            };
            let b0 = if b < i {
                b
            } else {
                b + 1
            };
            assert(s2[a] == s[a0]);
            assert(s2[b] == s[b0]);
        }
    }
}

} // verus!
