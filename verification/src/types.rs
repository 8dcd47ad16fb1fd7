//! The validated newtypes of the protocol: nicknames, channel names, hosts
//! and the typed message targets.  Each one views as the character sequence
//! it wraps; the grammar module says which sequences are well formed.

use vstd::prelude::*;

verus! {

/// A nickname: what `nickname_parser` accepts whole.
#[derive(Debug, Clone, PartialEq, Hash, Eq)]
pub struct Nickname(pub String);

impl View for Nickname {
    type V = Seq<char>;

    open spec fn view(&self) -> Seq<char> {
        self.0@
    }
}

/// A username as given by USER.
#[derive(Debug, Clone, PartialEq, Hash, Eq)]
pub struct Username(pub String);

impl View for Username {
    type V = Seq<char>;

    open spec fn view(&self) -> Seq<char> {
        self.0@
    }
}

/// The real name given by USER.
#[derive(Debug, Clone, PartialEq, Hash, Eq)]
pub struct Realname(pub String);

impl View for Realname {
    type V = Seq<char>;

    open spec fn view(&self) -> Seq<char> {
        self.0@
    }
}

/// A channel name with its prefix, as `channel_parser` accepts whole.
#[derive(Debug, Clone, PartialEq, Hash, Eq)]
pub struct ChannelName(pub String);

impl View for ChannelName {
    type V = Seq<char>;

    open spec fn view(&self) -> Seq<char> {
        self.0@
    }
}

/// A channel topic.
#[derive(Debug, Clone, PartialEq, Hash, Eq)]
pub struct Topic(pub String);

impl View for Topic {
    type V = Seq<char>;

    open spec fn view(&self) -> Seq<char> {
        self.0@
    }
}

/// A target mask of PRIVMSG.
#[derive(Debug, Clone, PartialEq, Hash, Eq)]
pub struct TargetMask(pub String);

impl View for TargetMask {
    type V = Seq<char>;

    open spec fn view(&self) -> Seq<char> {
        self.0@
    }
}

/// A hostname.
#[derive(Debug, Clone, PartialEq, Hash, Eq)]
pub struct Hostname(pub String);

impl View for Hostname {
    type V = Seq<char>;

    open spec fn view(&self) -> Seq<char> {
        self.0@
    }
}

/// A textual IPv4 address.
#[derive(Debug, Clone, PartialEq, Hash, Eq)]
pub struct Ip4Addr(pub String);

impl View for Ip4Addr {
    type V = Seq<char>;

    open spec fn view(&self) -> Seq<char> {
        self.0@
    }
}

/// A textual IPv6 address.
#[derive(Debug, Clone, PartialEq, Hash, Eq)]
pub struct Ip6Addr(pub String);

impl View for Ip6Addr {
    type V = Seq<char>;

    open spec fn view(&self) -> Seq<char> {
        self.0@
    }
}

/// A numeric host address of either family.
#[derive(Debug, Clone, PartialEq, Hash, Eq)]
pub enum IpAddr {
    Ip4Addr(Ip4Addr),
    Ip6Addr(Ip6Addr),
}

impl View for IpAddr {
    type V = Seq<char>;

    open spec fn view(&self) -> Seq<char> {
        match self {
            IpAddr::Ip4Addr(a) => a@,
            IpAddr::Ip6Addr(a) => a@,
        }
    }
}

/// A host: a hostname or a numeric address.
#[derive(Debug, Clone, PartialEq, Hash, Eq)]
pub enum Host {
    Hostname(Hostname),
    IpAddr(IpAddr),
}

impl View for Host {
    type V = Seq<char>;

    open spec fn view(&self) -> Seq<char> {
        match self {
            Host::Hostname(h) => h@,
            Host::IpAddr(a) => a@,
        }
    }
}

/// A target of PING and of the NAMES and LIST queries.
#[derive(Debug, Clone, PartialEq, Hash, Eq)]
pub enum Target {
    Nickname(Nickname),
    ServerName(Hostname),
}

/// One recipient of PRIVMSG, as the target grammar classifies it.
#[derive(Debug, Clone, PartialEq, Hash, Eq)]
pub enum MessageTo {
    ChannelName(ChannelName),
    Nickname(Nickname),
    TargetMask(TargetMask),
    UserHostServer(Username, Option<Host>, Hostname),
    UserHost(Username, Host),
    NickUserHost(Nickname, Username, Host),
}

} // verus!
