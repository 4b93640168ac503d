use std::sync::{Arc, Mutex};

use frippy::command::PluginCommand;
use frippy::dispatch::ThreadedPlugins;
use frippy::error::FrippyError;
use frippy::message::{Message, MessageCommand};
use frippy::plugin::{ExecutionStatus, Plugin};
use frippy::FrippyClient;

#[derive(Clone)]
struct NullClient;

impl FrippyClient for NullClient {
    fn current_nickname(&self) -> String {
        "frippy".to_string()
    }
    fn send_privmsg(&self, _target: &str, _message: &str) -> Result<(), FrippyError> {
        Ok(())
    }
    fn send_notice(&self, _target: &str, _message: &str) -> Result<(), FrippyError> {
        Ok(())
    }
    fn list_channels(&self) -> Option<Vec<String>> {
        None
    }
    fn list_users(&self, _channel: &str) -> Option<Vec<String>> {
        None
    }
}

struct CountingPlugin {
    counter: Arc<Mutex<u64>>,
}

impl Plugin for CountingPlugin {
    type Client = NullClient;
    fn name(&self) -> String {
        "counter".to_string()
    }
    fn execute(&self, _client: &NullClient, _message: &Message) -> ExecutionStatus {
        ExecutionStatus::RequiresThread
    }
    fn execute_threaded(&self, _client: &NullClient, _message: &Message) -> Result<(), FrippyError> {
        let mut guard = self.counter.lock().unwrap();
        *guard += 1;
        Ok(())
    }
    fn command(&self, _client: &NullClient, _command: PluginCommand) -> Result<(), FrippyError> {
        let mut guard = self.counter.lock().unwrap();
        *guard += 1;
        Ok(())
    }
    fn evaluate(&self, _client: &NullClient, _command: PluginCommand) -> Result<String, String> {
        Err("unimplemented".to_string())
    }
}

fn privmsg(content: &str) -> Message {
    Message {
        prefix: Some("alice!u@host".to_string()),
        command: MessageCommand::Privmsg {
            target: "#chan".to_string(),
            content: content.to_string(),
        },
    }
}

#[test]
fn many_workers_against_one_plugin_lose_no_increment() {
    let counter = Arc::new(Mutex::new(0u64));
    let plugin = CountingPlugin { counter: counter.clone() };
    let mut plugins: ThreadedPlugins<CountingPlugin> = ThreadedPlugins::new();
    plugins.add(plugin);

    let rounds = 16;
    let mut work = Vec::new();
    for i in 0..rounds {
        let (_, mut deferred) = plugins.execute_plugins(&NullClient, privmsg(&format!("m{}", i)));
        work.append(&mut deferred);
        let routed = plugins
            .handle_command(PluginCommand {
                tokens: vec!["counter".to_string(), "go".to_string()],
                source: "alice".to_string(),
                target: "#chan".to_string(),
            })
            .expect("counter is registered");
        assert_eq!(routed.name().as_str(), "counter");
        routed.run(&NullClient).unwrap();
    }

    for d in work {
        assert_eq!(d.name().as_str(), "counter");
        d.run(&NullClient).unwrap();
    }

    assert_eq!(*counter.lock().unwrap(), 2 * rounds as u64);
}
