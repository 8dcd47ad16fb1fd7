pub mod grammar;
pub mod parsers;
pub mod registration;
pub mod channel_ops;
pub mod pre_registration;
pub mod miscellanneous;
pub mod messaging;
pub mod types;
pub mod message_models;
pub mod replies;
pub mod errors;
pub mod commands;
pub mod config;
pub mod user_state;
pub mod channels_models;
pub mod server_state;
pub mod handlers;
pub mod target;
pub mod laws;

use vstd::prelude::*;

verus! {

/// A connection identifier: an opaque integer assigned when a client is
/// accepted, stable for the life of the connection.
#[derive(Debug, Clone, Copy, PartialEq, Eq, Structural, Hash)]
pub struct ClientId(pub usize);

impl ClientId {
    pub fn value(&self) -> (r: usize)
        ensures
            r == self.0,
    {
        self.0
    }
}

} // verus!
