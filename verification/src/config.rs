//! Configuration consumed by the protocol engine: the transports to open and
//! the expert tuning knobs (discovery ceiling, pacing interval, timeout).

use vstd::prelude::*;

verus! {

/// Top-level configuration: the adapters to create and the tuning settings.
#[derive(Clone, Debug)]
pub struct Config {
    pub serial_adapters: Vec<SerialAdapter>,
    pub tcp_adapters: Vec<TcpAdapter>,
    pub expert_settings: ExpertSettings,
}

/// A bus reachable through a local serial port.
#[derive(Clone, Debug)]
pub struct SerialAdapter {
    pub id: String,
    pub title: String,
    pub port: String,
}

/// A bus reachable through a TCP endpoint.
#[derive(Clone, Debug)]
pub struct TcpAdapter {
    pub id: String,
    pub title: String,
    pub host: String,
    pub port: u16,
}

/// Tuning knobs: the highest address probed by discovery, the minimum spacing
/// between transmissions, and the default response timeout.
#[derive(Clone, Debug)]
pub struct ExpertSettings {
    pub max_id: u8,
    pub tx_delay_ms: u64,
    pub response_timeout_ms: u64,
}

impl Default for ExpertSettings {
    /// Discovery probes up to address 240, sends are at least 200 ms apart,
    /// and a command is given up after 500 ms without a matching response.
    fn default() -> (r: Self)
        ensures
            r.max_id == 240,
            r.tx_delay_ms == 200,
            r.response_timeout_ms == 500,
    {
        ExpertSettings { max_id: 240, tx_delay_ms: 200, response_timeout_ms: 500 }
    }
}

} // verus!
