use frippy::command::PluginCommand;
use frippy::dispatch::ThreadedPlugins;
use frippy::error::FrippyError;
use frippy::message::Message;
use frippy::plugin::{ExecutionStatus, Plugin};
use frippy::FrippyClient;

#[derive(Clone)]
struct NullClient;

impl FrippyClient for NullClient {
    fn current_nickname(&self) -> String {
        "frippy".to_string()
    }
    fn send_privmsg(&self, _target: &str, _message: &str) -> Result<(), FrippyError> {
        Ok(())
    }
    fn send_notice(&self, _target: &str, _message: &str) -> Result<(), FrippyError> {
        Ok(())
    }
    fn list_channels(&self) -> Option<Vec<String>> {
        None
    }
    fn list_users(&self, _channel: &str) -> Option<Vec<String>> {
        None
    }
}

struct NamedPlugin {
    name: &'static str,
}

impl Plugin for NamedPlugin {
    type Client = NullClient;
    fn name(&self) -> String {
        self.name.to_string()
    }
    fn execute(&self, _client: &NullClient, _message: &Message) -> ExecutionStatus {
        ExecutionStatus::Done
    }
    fn execute_threaded(&self, _client: &NullClient, _message: &Message) -> Result<(), FrippyError> {
        Ok(())
    }
    fn command(&self, _client: &NullClient, _command: PluginCommand) -> Result<(), FrippyError> {
        Ok(())
    }
    fn evaluate(&self, _client: &NullClient, _command: PluginCommand) -> Result<String, String> {
        Err("unimplemented".to_string())
    }
}

#[test]
fn register_then_unregister_removes_exactly_one_entry() {
    let mut plugins: ThreadedPlugins<NamedPlugin> = ThreadedPlugins::new();
    plugins.add(NamedPlugin { name: "Help" });
    plugins.add(NamedPlugin { name: "Currency" });
    assert_eq!(plugins.len(), 2);
    assert!(plugins.remove("Help").is_some());
    assert_eq!(plugins.len(), 1);
    assert_eq!(plugins.names(), vec!["currency".to_string()]);
}

#[test]
fn unregister_unknown_name_leaves_registry_unchanged() {
    let mut plugins: ThreadedPlugins<NamedPlugin> = ThreadedPlugins::new();
    plugins.add(NamedPlugin { name: "Help" });
    assert!(plugins.remove("nosuch").is_none());
    assert_eq!(plugins.len(), 1);
    assert_eq!(plugins.names(), vec!["help".to_string()]);
}

#[test]
fn names_are_case_folded_on_registration() {
    let mut plugins: ThreadedPlugins<NamedPlugin> = ThreadedPlugins::new();
    plugins.add(NamedPlugin { name: "Help" });
    assert_eq!(plugins.names(), vec!["help".to_string()]);
}

#[test]
fn lookup_is_case_insensitive() {
    let mut plugins: ThreadedPlugins<NamedPlugin> = ThreadedPlugins::new();
    plugins.add(NamedPlugin { name: "help" });
    // the folded query "Help" finds the entry registered as "help"
    assert!(plugins.remove("Help").is_some());
    assert_eq!(plugins.len(), 0);
}

#[test]
fn reregistering_a_name_replaces_in_place() {
    let mut plugins: ThreadedPlugins<NamedPlugin> = ThreadedPlugins::new();
    plugins.add(NamedPlugin { name: "help" });
    plugins.add(NamedPlugin { name: "tell" });
    plugins.add(NamedPlugin { name: "HELP" });
    assert_eq!(plugins.len(), 2);
    assert_eq!(plugins.names(), vec!["help".to_string(), "tell".to_string()]);
}

#[test]
fn routing_an_unknown_first_token_is_a_silent_no_op() {
    let mut plugins: ThreadedPlugins<NamedPlugin> = ThreadedPlugins::new();
    plugins.add(NamedPlugin { name: "help" });
    let cmd = PluginCommand {
        tokens: vec!["nosuch".to_string(), "arg".to_string()],
        source: "alice".to_string(),
        target: "#chan".to_string(),
    };
    assert!(plugins.handle_command(cmd).is_none());
}

#[test]
fn routing_an_empty_command_is_a_silent_no_op() {
    let mut plugins: ThreadedPlugins<NamedPlugin> = ThreadedPlugins::new();
    plugins.add(NamedPlugin { name: "help" });
    let cmd = PluginCommand {
        tokens: Vec::new(),
        source: "alice".to_string(),
        target: "#chan".to_string(),
    };
    assert!(plugins.handle_command(cmd).is_none());
}
