//! Outbound message records.  Every line a writer sends ends in CRLF; these
//! constructors add the terminator where it is missing and remember the
//! sender when echo suppression needs it.

use vstd::prelude::*;

use crate::ClientId;

verus! {

/// `line`, terminated by CRLF: unchanged when it already ends so, with the
/// terminator appended otherwise.
pub open spec fn crlf_terminated(line: Seq<char>) -> Seq<char> {
    if line.len() >= 2 && line.subrange(line.len() - 2, line.len() as int) == "\r\n"@ {
        line
    } else {
        line + "\r\n"@
    }
}

/// A message bound for one session's writer, or carried through a channel's
/// fan-out with its sender noted for echo suppression.
#[derive(Debug, Clone)]
pub struct DirectIrcMessage {
    pub sender: Option<ClientId>,
    pub raw_line: String,
}

fn terminate(line: String) -> (r: String)
    ensures
        r@ == crlf_terminated(line@),
{
    proof {
        reveal_strlit("\r\n");
    }
    let n = line.as_str().unicode_len();
    let already = if n >= 2 {
        line.as_str().get_char(n - 2) == '\r' && line.as_str().get_char(n - 1) == '\n'
    } else {
        false
    };
    if already {
        proof {
            assert(line@.subrange(n - 2, n as int) =~= "\r\n"@);
        }
        line
    } else {
        proof {
            if n >= 2 && line@.subrange(n - 2, n as int) == "\r\n"@ {
                assert(line@.subrange(n - 2, n as int)[0] == line@[n - 2]);
                assert(line@.subrange(n - 2, n as int)[1] == line@[n - 1]);
                assert(false);
            }
        }
        let mut out = line;
        out.append("\r\n");
        out
    }
}

impl DirectIrcMessage {
    /// Wraps a line without a sender, adding CRLF where it is missing.
    pub fn new(line: String) -> (r: DirectIrcMessage)
        ensures
            r.sender is None,
            r.raw_line@ == crlf_terminated(line@),
    {
        DirectIrcMessage { sender: None, raw_line: terminate(line) }
    }

    /// Wraps a line and notes its sender, adding CRLF where it is missing.
    pub fn new_with_sender(line: String, sender: ClientId) -> (r: DirectIrcMessage)
        ensures
            r.sender == Some(sender),
            r.raw_line@ == crlf_terminated(line@),
    {
        DirectIrcMessage { sender: Some(sender), raw_line: terminate(line) }
    }
}


impl DirectIrcMessage {
    /// An element-wise copy.
    pub fn duplicate(&self) -> (r: DirectIrcMessage)
        ensures
            r.sender == self.sender,
            r.raw_line == self.raw_line,
    {
        DirectIrcMessage { sender: self.sender, raw_line: self.raw_line.clone() }
    }
}

/// One action a handler asks the connection loops to perform: a line for
/// one session's writer, a line through a channel's fan-out, or a change
/// to a writer's subscriptions.
#[derive(Debug)]
pub enum Outbound {
    /// Deliver to the writer of one session.
    Direct { to: ClientId, message: DirectIrcMessage },
    /// Deliver through the named channel's fan-out; the message's sender
    /// is excluded by the subscription forwarders.
    Broadcast { channel: crate::types::ChannelName, message: DirectIrcMessage },
    /// The issuing session's writer subscribes to the named channel.
    Subscribe { channel: crate::types::ChannelName },
    /// The issuing session's writer drops the named channel.
    Unsubscribe { channel: crate::types::ChannelName },
}

impl Outbound {
    /// The recipient, for a direct delivery.
    pub open spec fn direct_to(self) -> Option<ClientId> {
        match self {
            Outbound::Direct { to, .. } => Some(to),
            _ => None,
        }
    }
}

} // verus!
