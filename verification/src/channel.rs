//! The kernel domain's view of the serviced mailbox channel: a log of the
//! messages it has sent and the stream of replies the host will hand back.
//!
//! Every send over the real slot is a rendezvous — the sender busy-waits for
//! the acknowledgment before anything else happens — so from the kernel's
//! side a session is fully described by the ordered log of messages it sent
//! and the ordered replies the host produced. An [`Endpoint`] holds both;
//! the replies are supplied up front by whoever stands in for the host (a
//! test, or the surrounding program).

use vstd::prelude::*;
use crate::kernel_proto::{Exception, Message};

verus! {

/// Why a channel client could not return normally.
#[derive(Debug, PartialEq)]
pub enum Failure {
    /// A kernel-domain exception was raised at the call site: an invalid
    /// argument, a busy cache row, or an exception propagated from the host.
    Raised(Exception),
    /// The host answered a request with a reply of the wrong shape. The real
    /// runtime logs the offending message and halts; it is carried here so
    /// the caller can do the same.
    Unexpected(Message),
    /// The host never serviced the request. The real kernel CPU spins
    /// forever in this case; detection belongs to layers above the channel.
    NoReply,
}

/// The kernel end of the channel: what was sent, and what remains to be
/// received.
pub struct Endpoint {
    /// Every message this end has sent, oldest first, each one acknowledged
    /// by the host before the next.
    pub sent: Vec<Message>,
    /// The host's pending messages, next one first.
    pub inbox: Vec<Message>,
}

impl Endpoint {
    /// An endpoint whose host will deliver the given messages, in order.
    pub fn new(inbox: Vec<Message>) -> (r: Endpoint)
        ensures
            r.sent@ == Seq::<Message>::empty(),
            r.inbox == inbox,
    {
        Endpoint { sent: Vec::new(), inbox }
    }

    /// Sends one message and waits out the host's acknowledgment.
    pub fn send(&mut self, message: Message)
        ensures
            final(self).sent@ == old(self).sent@.push(message),
            final(self).inbox == old(self).inbox,
    {
        self.sent.push(message);
    }

    /// Polls until the host's next message is pending, then takes it out of
    /// the slot and acknowledges. `None` models a host that never sends
    /// another message: the real kernel CPU would spin forever.
    pub fn recv(&mut self) -> (r: Option<Message>)
        ensures
            final(self).sent == old(self).sent,
            old(self).inbox@.len() == 0 ==> r is None && final(self).inbox == old(self).inbox,
            old(self).inbox@.len() > 0 ==> r == Some(old(self).inbox@[0]) && final(self).inbox@
                == old(self).inbox@.subrange(1, old(self).inbox@.len() as int),
    {
        if self.inbox.len() > 0 {
            let m = self.inbox.remove(0);
            proof {
                assert(old(self).inbox@.remove(0) =~= old(self).inbox@.subrange(
                    1,
                    old(self).inbox@.len() as int,
                ));
            }
            Some(m)
        } else {
            None
        }
    }
}

} // verus!
