use vstd::prelude::*;

verus! {

/// How a message is delivered to the clients, one after the other.
#[derive(PartialEq, Eq, Structural, Clone, Copy)]
pub enum DeliveryPolicy {
    /// Stop at the first client that cannot be sent to (relayed messages).
    StopAtFirstFailure,
    /// Go on past clients that cannot be sent to (notices of disconnection).
    SkipFailures,
}

/// One delivery of a message to the clients.
pub struct Delivery {
    policy: DeliveryPolicy,
    failed: bool,
}

impl Delivery {
    /// The policy of the delivery.
    pub closed spec fn policy(&self) -> DeliveryPolicy {
        self.policy
    }

    /// Whether some send of the delivery failed.
    pub closed spec fn failed(&self) -> bool {
        self.failed
    }

    /// A delivery that has sent nothing yet.
    pub fn new(policy: DeliveryPolicy) -> (d: Delivery)
        ensures
            d.policy() == policy,
            !d.failed(),
    {
        Delivery { policy, failed: false }
    }

    /// Takes in whether the send to one client succeeded, and says whether to
    /// go on to the next client.
    pub fn record(&mut self, sent: bool) -> (go_on: bool)
        ensures
            final(self).policy() == old(self).policy(),
            final(self).failed() == (old(self).failed() || !sent),
            go_on == (sent || old(self).policy() == DeliveryPolicy::SkipFailures),
    {
        if !sent {
            self.failed = true;
        }
        sent || self.policy == DeliveryPolicy::SkipFailures
    }

    /// Whether every client that was sent to got the message.
    pub fn delivered(&self) -> (b: bool)
        ensures
            b == !self.failed(),
    {
        !self.failed
    }
}

} // verus!
