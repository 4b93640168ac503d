use std::sync::{Arc, Mutex};

use frippy::bridge::BridgeConfig;
use frippy::command::PluginCommand;
use frippy::error::FrippyError;
use frippy::message::{Message, MessageCommand};
use frippy::plugin::{ExecutionStatus, Plugin};
use frippy::{process_msg, Bot, FrippyClient};

#[derive(Clone)]
struct CountingClient {
    sent: Arc<Mutex<Vec<(String, String)>>>,
}

impl CountingClient {
    fn new() -> CountingClient {
        CountingClient { sent: Arc::new(Mutex::new(Vec::new())) }
    }
}

impl FrippyClient for CountingClient {
    fn current_nickname(&self) -> String {
        "frippy".to_string()
    }
    fn send_privmsg(&self, target: &str, message: &str) -> Result<(), FrippyError> {
        self.sent.lock().unwrap().push((target.to_string(), message.to_string()));
        Ok(())
    }
    fn send_notice(&self, target: &str, message: &str) -> Result<(), FrippyError> {
        self.sent.lock().unwrap().push((target.to_string(), message.to_string()));
        Ok(())
    }
    fn list_channels(&self) -> Option<Vec<String>> {
        None
    }
    fn list_users(&self, _channel: &str) -> Option<Vec<String>> {
        None
    }
}

struct EchoPlugin {
    observed: Arc<Mutex<Vec<(Option<String>, String)>>>,
}

impl EchoPlugin {
    fn new() -> EchoPlugin {
        EchoPlugin { observed: Arc::new(Mutex::new(Vec::new())) }
    }
}

impl Plugin for EchoPlugin {
    type Client = CountingClient;
    fn name(&self) -> String {
        "echo".to_string()
    }
    fn execute(&self, client: &CountingClient, message: &Message) -> ExecutionStatus {
        if let MessageCommand::Privmsg { target, content } = &message.command {
            self.observed.lock().unwrap().push((message.prefix.clone(), content.clone()));
            let _ = client.send_privmsg(target, content);
        }
        ExecutionStatus::Done
    }
    fn execute_threaded(&self, _client: &CountingClient, _message: &Message) -> Result<(), FrippyError> {
        Ok(())
    }
    fn command(&self, _client: &CountingClient, _command: PluginCommand) -> Result<(), FrippyError> {
        Ok(())
    }
    fn evaluate(&self, _client: &CountingClient, _command: PluginCommand) -> Result<String, String> {
        Err("unimplemented".to_string())
    }
}

fn relayed(prefix: &str, content: &str) -> Message {
    Message {
        prefix: Some(prefix.to_string()),
        command: MessageCommand::Privmsg {
            target: "#chan".to_string(),
            content: content.to_string(),
        },
    }
}

#[test]
fn invalid_pattern_is_rejected_at_construction() {
    assert!(BridgeConfig::new(Some("foo("), None, None, None, false).is_none());
    assert!(BridgeConfig::new(None, None, Some("("), None, false).is_none());
    assert!(BridgeConfig::new(Some("ok"), Some("bridge"), Some("ok"), Some("ok"), true).is_some());
}

#[test]
fn ignored_messages_reach_no_plugin_and_produce_no_reply() {
    let cfg = BridgeConfig::new(None, Some("bridgebot"), Some("^no-relay"), None, false).unwrap();
    let plugin = EchoPlugin::new();
    let observed = plugin.observed.clone();
    let client = CountingClient::new();
    let sent = client.sent.clone();
    let mut bot: Bot<EchoPlugin> = Bot::new(".");
    bot.set_bridge(cfg);
    bot.add_plugin(plugin);
    let report = bot.process(&client, relayed("bridgebot!u@host", "no-relay: hidden"));
    assert!(report.dropped);
    assert!(report.outcomes.is_empty());
    assert!(report.deferred.is_empty());
    assert!(report.routed.is_none());
    assert!(observed.lock().unwrap().is_empty());
    assert!(sent.lock().unwrap().is_empty());
}

#[test]
fn messages_from_other_senders_are_not_bridged() {
    let cfg = BridgeConfig::new(None, Some("bridgebot"), Some("^no-relay"), None, false).unwrap();
    let plugin = EchoPlugin::new();
    let observed = plugin.observed.clone();
    let client = CountingClient::new();
    let mut bot: Bot<EchoPlugin> = Bot::new(".");
    bot.set_bridge(cfg);
    bot.add_plugin(plugin);
    let report = bot.process(&client, relayed("alice!u@host", "no-relay: but not relayed"));
    assert!(!report.dropped);
    let got = observed.lock().unwrap();
    assert_eq!(got.len(), 1);
    assert_eq!(got[0].0.as_deref(), Some("alice!u@host"));
    assert_eq!(got[0].1, "no-relay: but not relayed");
}

#[test]
fn bridge_content_pattern_rewrites_sender_and_content() {
    let cfg = BridgeConfig::new(
        None,
        Some("bridgebot"),
        None,
        Some(r"^<(?P<username>\S+)> (?P<message>.*)$"),
        false,
    )
    .unwrap();
    let plugin = EchoPlugin::new();
    let observed = plugin.observed.clone();
    let client = CountingClient::new();
    let mut plugins = frippy::dispatch::ThreadedPlugins::new();
    plugins.add(plugin);
    let report = process_msg(
        &client,
        &mut plugins,
        ".",
        &Some(cfg),
        relayed("bridgebot!u@host", "<alice> hello there"),
    );
    assert!(!report.dropped);
    let got = observed.lock().unwrap();
    assert_eq!(got.len(), 1);
    assert_eq!(got[0].0.as_deref(), Some("alice!u@host"));
    assert_eq!(got[0].1, "hello there");
}

#[test]
fn relay_format_pattern_derives_the_user_from_the_nickname() {
    let cfg = BridgeConfig::new(Some(r"^(?P<username>\S+)-relay$"), None, None, None, false)
        .unwrap();
    let plugin = EchoPlugin::new();
    let observed = plugin.observed.clone();
    let client = CountingClient::new();
    let mut plugins = frippy::dispatch::ThreadedPlugins::new();
    plugins.add(plugin);
    let report =
        process_msg(&client, &mut plugins, ".", &Some(cfg), relayed("alice-relay!u@host", "hi"));
    assert!(!report.dropped);
    let got = observed.lock().unwrap();
    assert_eq!(got[0].0.as_deref(), Some("alice!u@host"));
    assert_eq!(got[0].1, "hi");
}

#[test]
fn zero_width_spaces_are_stripped_from_the_derived_user() {
    let cfg = BridgeConfig::new(
        None,
        Some("bridgebot"),
        None,
        Some("^<(?P<username>\\S+)> (?P<message>.*)$"),
        true,
    )
    .unwrap();
    let plugin = EchoPlugin::new();
    let observed = plugin.observed.clone();
    let client = CountingClient::new();
    let mut plugins = frippy::dispatch::ThreadedPlugins::new();
    plugins.add(plugin);
    let content = format!("<al\u{200b}ice> ping");
    let report = process_msg(
        &client,
        &mut plugins,
        ".",
        &Some(cfg),
        relayed("bridgebot!u@host", &content),
    );
    assert!(!report.dropped);
    let got = observed.lock().unwrap();
    assert_eq!(got[0].0.as_deref(), Some("alice!u@host"));
}

#[test]
fn a_bridged_command_is_routed_for_the_rewritten_message() {
    let cfg = BridgeConfig::new(
        None,
        Some("bridgebot"),
        None,
        Some("^<(?P<username>\\S+)> (?P<message>.*)$"),
        false,
    )
    .unwrap();
    let plugin = EchoPlugin::new();
    let client = CountingClient::new();
    let mut plugins = frippy::dispatch::ThreadedPlugins::new();
    plugins.add(plugin);
    let report = process_msg(
        &client,
        &mut plugins,
        ".",
        &Some(cfg),
        relayed("bridgebot!u@host", "<alice> .echo hi"),
    );
    let routed = report.routed.expect("the rewritten content starts with the prefix");
    assert_eq!(routed.name().as_str(), "echo");
}

#[test]
fn a_content_pattern_without_a_message_group_keeps_the_content() {
    let cfg =
        BridgeConfig::new(None, Some("bridgebot"), None, Some(r"^(?P<username>\w+):"), false)
            .unwrap();
    let plugin = EchoPlugin::new();
    let observed = plugin.observed.clone();
    let client = CountingClient::new();
    let mut plugins = frippy::dispatch::ThreadedPlugins::new();
    plugins.add(plugin);
    let report = process_msg(
        &client,
        &mut plugins,
        ".",
        &Some(cfg),
        relayed("bridgebot!u@host", "carol: hi all"),
    );
    assert!(!report.dropped);
    let got = observed.lock().unwrap();
    assert_eq!(got[0].0.as_deref(), Some("carol!u@host"));
    assert_eq!(got[0].1, "carol: hi all");
}

#[test]
fn nickname_substitution_replaces_every_literal_occurrence() {
    // the substitution is a verbatim substring replacement over the whole
    // identity, so a nickname that recurs elsewhere in it is rewritten too
    let cfg = BridgeConfig::new(
        None,
        Some("bob"),
        None,
        Some("^<(?P<username>\\S+)> (?P<message>.*)$"),
        false,
    )
    .unwrap();
    let plugin = EchoPlugin::new();
    let observed = plugin.observed.clone();
    let client = CountingClient::new();
    let mut plugins = frippy::dispatch::ThreadedPlugins::new();
    plugins.add(plugin);
    let report = process_msg(
        &client,
        &mut plugins,
        ".",
        &Some(cfg),
        relayed("bob!bob@bobhost", "<alice> hi"),
    );
    assert!(!report.dropped);
    let got = observed.lock().unwrap();
    assert_eq!(got[0].0.as_deref(), Some("alice!alice@alicehost"));
}

#[test]
fn the_relay_format_capture_wins_over_the_content_capture() {
    let cfg = BridgeConfig::new(
        Some(r"^(?P<username>\S+)-relay$"),
        None,
        None,
        Some("^<(?P<username>\\S+)> (?P<message>.*)$"),
        false,
    )
    .unwrap();
    let plugin = EchoPlugin::new();
    let observed = plugin.observed.clone();
    let client = CountingClient::new();
    let mut plugins = frippy::dispatch::ThreadedPlugins::new();
    plugins.add(plugin);
    let report = process_msg(
        &client,
        &mut plugins,
        ".",
        &Some(cfg),
        relayed("alice-relay!u@host", "<carol> hi"),
    );
    assert!(!report.dropped);
    let got = observed.lock().unwrap();
    // the user derived from the nickname wins; the content still comes from
    // the content pattern
    assert_eq!(got[0].0.as_deref(), Some("alice!u@host"));
    assert_eq!(got[0].1, "hi");
}

#[test]
fn without_a_bridge_the_message_is_untouched() {
    let plugin = EchoPlugin::new();
    let observed = plugin.observed.clone();
    let client = CountingClient::new();
    let mut plugins = frippy::dispatch::ThreadedPlugins::new();
    plugins.add(plugin);
    let report =
        process_msg(&client, &mut plugins, ".", &None, relayed("bridgebot!u@host", "<alice> hi"));
    assert!(!report.dropped);
    let got = observed.lock().unwrap();
    assert_eq!(got[0].0.as_deref(), Some("bridgebot!u@host"));
    assert_eq!(got[0].1, "<alice> hi");
}
