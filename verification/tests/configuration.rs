use std::collections::HashMap;

use module_router::configuration::global_configuration::GlobalConfiguration;
use module_router::configuration::module_configuration::{ModuleAddressType, ModuleConfiguration};
use module_router::configuration::module_properties::ModuleProperties;
use module_router::messaging::message::Message;
use module_router::modules::tcpsocket::TCPListenerConfiguration;
use module_router::modules::tcpwriter::TCPWriterConfiguration;

fn string(text: &str) -> serde_json::Value {
    serde_json::Value::String(text.to_string())
}

fn field(key: &str, value: serde_json::Value) -> (String, serde_json::Value) {
    (key.to_string(), value)
}

#[test]
fn message_keeps_its_fields() {
    let message = Message::new(vec![
        field("data", string("a line")),
        field("size", serde_json::Value::from(6)),
        field("ok", serde_json::Value::Bool(true)),
        field("none", serde_json::Value::Null),
    ]);
    assert_eq!(message.len(), 4);
    assert_eq!(message.get("data"), Some(&string("a line")));
    assert_eq!(message.get("size"), Some(&serde_json::Value::from(6)));
    assert_eq!(message.get("ok"), Some(&serde_json::Value::Bool(true)));
    assert_eq!(message.get("none"), Some(&serde_json::Value::Null));
    assert_eq!(message.get("missing"), None);
    assert_eq!(message.get(""), None);
    assert_eq!(message.get("Data"), None);
}

#[test]
fn message_of_no_field() {
    let message = Message::new(Vec::new());
    assert_eq!(message.len(), 0);
    assert_eq!(message.get("data"), None);
    assert!(message.fields().is_empty());
}

#[test]
fn message_key_written_twice_keeps_the_last_value() {
    let message = Message::new(vec![
        field("data", string("first")),
        field("other", string("kept")),
        field("data", string("second")),
        field("data", string("third")),
    ]);
    assert_eq!(message.len(), 2);
    assert_eq!(message.get("data"), Some(&string("third")));
    assert_eq!(message.get("other"), Some(&string("kept")));
    let mut keys: Vec<String> = message.fields().iter().map(|(key, _)| key.clone()).collect();
    keys.sort();
    assert_eq!(keys, vec!["data".to_string(), "other".to_string()]);
}

#[test]
fn message_order_of_fields_means_nothing() {
    let one = Message::new(vec![field("a", string("1")), field("b", string("2"))]);
    let other = Message::new(vec![field("b", string("2")), field("a", string("1"))]);
    assert_eq!(one.len(), other.len());
    assert_eq!(one.get("a"), other.get("a"));
    assert_eq!(one.get("b"), other.get("b"));
}

#[test]
fn message_with_writes_one_field() {
    let message = Message::new(vec![field("data", string("line"))]);
    let stamped = message.clone().with("timestamp".to_string(), string("now"));
    assert_eq!(stamped.len(), 2);
    assert_eq!(stamped.get("data"), Some(&string("line")));
    assert_eq!(stamped.get("timestamp"), Some(&string("now")));
    let changed = stamped.with("data".to_string(), string("other line"));
    assert_eq!(changed.len(), 2);
    assert_eq!(changed.get("data"), Some(&string("other line")));
    assert_eq!(changed.get("timestamp"), Some(&string("now")));
    assert_eq!(message.len(), 1);
    assert_eq!(message.get("data"), Some(&string("line")));
    assert_eq!(message.get("timestamp"), None);
}

#[test]
fn properties_take_over_the_declaration() {
    let mut settings = HashMap::new();
    settings.insert("address".to_string(), serde_json::Value::String("127.0.0.1".to_string()));
    settings.insert("port".to_string(), serde_json::Value::from(9000));
    let configuration = ModuleConfiguration {
        uuid: 42,
        module: "tcpsocketlistener".to_string(),
        description: Some("listens".to_string()),
        address_type: Some(ModuleAddressType::LocalPeerManaged("peer-1".to_string())),
        module_settings: Some(settings.clone()),
    };
    let properties = ModuleProperties::from_configuration("listener".to_string(), configuration);
    assert_eq!(properties.uuid, 42);
    assert_eq!(properties.name, "listener");
    assert_eq!(properties.module_type, "tcpsocketlistener");
    assert_eq!(properties.description, Some("listens".to_string()));
    assert_eq!(properties.module_settings, Some(settings));
    assert!(properties.inbox.is_none());
    assert!(properties.outbox.is_none());
}

#[test]
fn properties_of_a_bare_declaration() {
    let properties =
        ModuleProperties::from_configuration("m".to_string(), ModuleConfiguration::default());
    assert_eq!(properties.uuid, 0);
    assert_eq!(properties.name, "m");
    assert_eq!(properties.module_type, "");
    assert_eq!(properties.description, None);
    assert_eq!(properties.module_settings, None);
    assert!(properties.inbox.is_none());
    assert!(properties.outbox.is_none());
}

#[test]
fn default_values() {
    let configuration = GlobalConfiguration::default();
    assert_eq!(configuration.stage_id, 0);
    assert!(configuration.modules.is_empty());
    assert!(configuration.routes.is_empty());

    let declaration = ModuleConfiguration::default();
    assert_eq!(declaration.uuid, 0);
    assert_eq!(declaration.module, "");
    assert!(declaration.description.is_none());
    assert!(declaration.address_type.is_none());
    assert!(declaration.module_settings.is_none());

    let properties = ModuleProperties::default();
    assert_eq!(properties.name, "");
    assert_eq!(properties.module_type, "");
    assert!(properties.inbox.is_none());
    assert!(properties.outbox.is_none());

    assert!(matches!(ModuleAddressType::default(), ModuleAddressType::Managed));

    let listener = TCPListenerConfiguration::default();
    assert_eq!(listener.address, "");
    assert_eq!(listener.port, 0);
    assert_eq!(listener.buffer_size, 0);

    let writer = TCPWriterConfiguration::default();
    assert_eq!(writer.address, "");
    assert_eq!(writer.port, 0);
}
