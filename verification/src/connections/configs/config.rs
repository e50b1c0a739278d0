use vstd::prelude::*;

verus! {

/// Network settings of a node: the TCP port it listens on and the largest
/// gossip message it accepts.
pub struct Config {
    pub port: i32,
    pub max_msg_size: usize,
}

/// The node's network settings: port 49221 and messages of at most
/// 1 024 000 bytes.
pub fn get_config() -> (config: Config)
    ensures
        config.port == 49221,
        config.max_msg_size == 1_024_000,
{
    Config { port: 49221, max_msg_size: 1_024_000 }
}

} // verus!
