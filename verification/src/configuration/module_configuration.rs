use std::collections::HashMap;
use vstd::prelude::*;

verus! {

/// Identifies the peer that manages a module which is not managed locally.
pub type PeerID = String;

/// Who is responsible for a declared module.
#[derive(Debug, Clone)]
pub enum ModuleAddressType {
    Managed,
    LocalPeerManaged(PeerID),
    RemotePeerManaged(PeerID),
}

impl Default for ModuleAddressType {
    /// A module is managed by this process unless the topology says otherwise.
    fn default() -> (address: Self)
        ensures
            address is Managed,
    {
        ModuleAddressType::Managed
    }
}

/// One entry of the `modules` table of a topology document, as declared.
#[derive(Debug, Clone)]
pub struct ModuleConfiguration {
    /// Identity of the declaration; it plays no part in routing.
    pub uuid: u128,
    /// The type tag that selects the constructor in the registry.
    pub module: String,
    pub description: Option<String>,
    pub address_type: Option<ModuleAddressType>,
    /// Settings that only the concrete module interprets.
    pub module_settings: Option<HashMap<String, serde_json::Value>>,
}

impl Default for ModuleConfiguration {
    /// A declaration without a type tag, a description or settings.
    fn default() -> (configuration: Self)
        ensures
            configuration.uuid == 0,
            configuration.module@ == Seq::<char>::empty(),
            configuration.description is None,
            configuration.address_type is None,
            configuration.module_settings is None,
    {
        ModuleConfiguration {
            uuid: 0,
            module: String::new(),
            description: None,
            address_type: None,
            module_settings: None,
        }
    }
}

} // verus!
