use vstd::prelude::*;

verus! {

/// The settings of a TCP listener: where it binds, and how many bytes it
/// takes from a connection at a time.
#[derive(Debug, Clone)]
pub struct TCPListenerConfiguration {
    pub address: String,
    pub port: u16,
    pub buffer_size: usize,
}

impl Default for TCPListenerConfiguration {
    /// No address, port 0 and an empty buffer.
    fn default() -> (configuration: Self)
        ensures
            configuration.address@ == Seq::<char>::empty(),
            configuration.port == 0,
            configuration.buffer_size == 0,
    {
        TCPListenerConfiguration { address: String::new(), port: 0, buffer_size: 0 }
    }
}

} // verus!
