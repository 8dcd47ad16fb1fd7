//! The startup configuration record.  Reading and decoding the
//! configuration file happens outside the library; the library receives
//! the plain values.

use vstd::prelude::*;

verus! {

/// Identity of the server.
#[derive(Debug, Clone)]
pub struct ServerConfig {
    pub name: String,
    pub version: String,
    pub motd: String,
}

/// Where the server listens.
#[derive(Debug, Clone)]
pub struct NetworkConfig {
    pub bind_address: String,
    pub port: u16,
    pub max_connections: usize,
}

/// Resource and anti-flood limits.
#[derive(Debug, Clone)]
pub struct LimitsConfig {
    pub max_channels_per_user: usize,
    pub max_message_length: usize,
    pub max_connections_per_ip: usize,
    pub unregistered_timeout: u64,
    pub max_channel_name_length: Option<usize>,
    pub max_topic_length: Option<usize>,
}

/// The whole configuration record.
#[derive(Debug, Clone)]
pub struct Config {
    pub server: ServerConfig,
    pub network: NetworkConfig,
    pub limits: LimitsConfig,
}

impl Config {
    /// The channel name limit, falling back to the protocol's 200.
    pub fn get_max_channel_name_length(&self) -> (r: usize)
        ensures
            r == match self.limits.max_channel_name_length {
                Some(n) => n,
                None => 200usize,
            },
    {
        match self.limits.max_channel_name_length {
            Some(n) => n,
            None => 200,
        }
    }
}

} // verus!
