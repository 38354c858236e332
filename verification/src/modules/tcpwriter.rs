use vstd::prelude::*;

verus! {

/// The settings of a TCP writer: the peer that it connects to.
#[derive(Debug, Clone)]
pub struct TCPWriterConfiguration {
    pub address: String,
    pub port: u16,
}

impl Default for TCPWriterConfiguration {
    /// No address and port 0.
    fn default() -> (configuration: Self)
        ensures
            configuration.address@ == Seq::<char>::empty(),
            configuration.port == 0,
    {
        TCPWriterConfiguration { address: String::new(), port: 0 }
    }
}

} // verus!
