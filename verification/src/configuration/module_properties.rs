use crate::configuration::module_configuration::ModuleConfiguration;
use crate::messaging::message::Message;
use async_channel::{Receiver, Sender};
use std::collections::HashMap;
use vstd::prelude::*;

verus! {

/// What a module is built from, and the place where it keeps the endpoints
/// that wiring hands to it.
#[derive(Debug)]
pub struct ModuleProperties {
    /// Identity of the declaration; it plays no part in routing.
    pub uuid: u128,
    /// The name under which routes refer to the module.
    pub name: String,
    /// The type tag that selected the module's constructor.
    pub module_type: String,
    pub description: Option<String>,
    /// Settings that only the concrete module interprets.
    pub module_settings: Option<HashMap<String, serde_json::Value>>,
    /// The receiving half of the channel that feeds the module, once wired.
    pub inbox: Option<Receiver<Message>>,
    /// The sending half of the channel that the module feeds, once wired.
    pub outbox: Option<Sender<Message>>,
}

impl Default for ModuleProperties {
    /// Properties without a name, a type tag, settings or endpoints.
    fn default() -> (properties: Self)
        ensures
            properties.uuid == 0,
            properties.name@ == Seq::<char>::empty(),
            properties.module_type@ == Seq::<char>::empty(),
            properties.description is None,
            properties.module_settings is None,
            properties.inbox is None,
            properties.outbox is None,
    {
        ModuleProperties {
            uuid: 0,
            name: String::new(),
            module_type: String::new(),
            description: None,
            module_settings: None,
            inbox: None,
            outbox: None,
        }
    }
}

impl ModuleProperties {
    /// The properties of the module declared as `name` with `configuration`:
    /// what was declared, and no endpoint yet.
    pub fn from_configuration(name: String, configuration: ModuleConfiguration) -> (properties:
        Self)
        ensures
            properties.uuid == configuration.uuid,
            properties.name == name,
            properties.module_type == configuration.module,
            properties.description == configuration.description,
            properties.module_settings == configuration.module_settings,
            properties.inbox is None,
            properties.outbox is None,
    {
        ModuleProperties {
            uuid: configuration.uuid,
            name,
            module_type: configuration.module,
            description: configuration.description,
            module_settings: configuration.module_settings,
            inbox: None,
            outbox: None,
        }
    }
}

} // verus!
