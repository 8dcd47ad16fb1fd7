//! Command families the server recognizes but does not implement.

use vstd::prelude::*;

verus! {

/// Service query commands (RFC 2812 section 3.5).
#[derive(Debug, Clone, Copy, PartialEq, Eq, Structural)]
pub enum IrcServiceQueryCommands {
    SERVLIST,
    SQUERY,
    WHO,
    WHOIS,
    WHOWAS,
}

/// Optional features (RFC 2812 section 4).
#[derive(Debug, Clone, Copy, PartialEq, Eq, Structural)]
pub enum IrcOptionalFeatures {
    AWAY,
    REHASH,
    DIE,
    RESTART,
    SUMMON,
    USERS,
    WALLOPS,
    USERHOST,
    ISON,
}

} // verus!
