//! The broadcast hub: one shared fan-out channel. Every published message
//! is delivered to every subscription taken before the publish, in the one
//! global publish order, except that a subscriber lagging more than the
//! hub's capacity silently loses the oldest unread messages (and only those)
//! — delivery is best-effort and never stalls a publisher.

use vstd::prelude::*;

verus! {

/// The shared fan-out channel.
///
/// Abstractly the hub is the growing sequence of every message ever
/// published (`history()`), of which only the most recent `capacity()`
/// are still buffered for delivery; `oldest_live()` is the history index
/// of the oldest message a subscriber can still receive.
pub struct Hub {
    buffer: Vec<String>,
    start: usize,
    cap: usize,
    log: Ghost<Seq<Seq<char>>>,
}

/// One session's receive handle onto the hub. It observes every message
/// published after it was taken (never retroactively), in publish order;
/// `received()` is the trace of history indices delivered so far.
pub struct Subscription {
    next: usize,
    delivered: Ghost<Seq<int>>,
}

impl Hub {
    /// Every message ever published, oldest first.
    pub closed spec fn history(&self) -> Seq<Seq<char>> {
        self.log@
    }

    /// How many in-flight messages the hub retains for a subscriber.
    pub closed spec fn capacity(&self) -> nat {
        self.cap as nat
    }

    /// History index of the oldest message still buffered; everything
    /// before it has been dropped for subscribers that lagged behind.
    pub closed spec fn oldest_live(&self) -> int {
        self.start as int
    }

    pub closed spec fn wf(&self) -> bool {
        &&& self.cap >= 1
        &&& self.buffer@.len() <= self.cap
        &&& self.start + self.buffer@.len() == self.log@.len()
        &&& self.log@.len() <= usize::MAX
        &&& forall|i: int|
            0 <= i < self.buffer@.len() ==> self.buffer@[i]@ == self.log@[self.start + i]
    }

    /// A fresh hub with room for `capacity` in-flight messages and an
    /// empty history.
    pub fn new(capacity: usize) -> (h: Hub)
        requires
            capacity >= 1,
        ensures
            h.wf(),
            h.history() == Seq::<Seq<char>>::empty(),
            h.capacity() == capacity as nat,
            h.oldest_live() == 0,
    {
        Hub { buffer: Vec::new(), start: 0, cap: capacity, log: Ghost(Seq::empty()) }
    }

    /// How many messages have ever been published.
    pub fn history_len(&self) -> (n: usize)
        requires
            self.wf(),
        ensures
            n == self.history().len(),
    {
        self.start + self.buffer.len()
    }

    /// Publish a message: it is appended to the history and will be seen
    /// by every current subscriber that does not lag too far behind; when
    /// the buffer is full the oldest buffered message is dropped, so a
    /// publisher never waits on subscriber speed.
    pub fn publish(&mut self, msg: String)
        requires
            old(self).wf(),
            old(self).history().len() < usize::MAX,
        ensures
            final(self).wf(),
            final(self).history() == old(self).history().push(msg@),
            final(self).capacity() == old(self).capacity(),
            final(self).oldest_live() == vstd::math::max(
                old(self).oldest_live(),
                final(self).history().len() - final(self).capacity(),
            ),
    {
        let ghost pre = self.buffer@;
        if self.buffer.len() == self.cap {
            self.buffer.remove(0);
            self.start = self.start + 1;
            proof {
                pre.remove_ensures(0);
            }
        }
        let ghost published = msg@;
        self.buffer.push(msg);
        proof {
            self.log@ = self.log@.push(published);
        }
    }

    /// Take a fresh subscription: it observes exactly the messages
    /// published from this point onward, nothing retroactively.
    pub fn subscribe(&self) -> (s: Subscription)
        requires
            self.wf(),
        ensures
            s.wf(*self),
            s.cursor() == self.history().len(),
            s.received() == Seq::<int>::empty(),
    {
        let n = self.history_len();
        Subscription { next: n, delivered: Ghost(Seq::empty()) }
    }

    /// The history index the subscription will be served next: its own
    /// cursor, unless it lagged behind the live window, in which case the
    /// oldest still-live message — the drop-oldest policy.
    pub open spec fn resume_point(&self, s: Subscription) -> int {
        vstd::math::max(s.cursor(), self.oldest_live())
    }

    /// Receive the next pending message, if any. Delivers the message at
    /// the resume point — the subscriber's own next message unless it
    /// lagged, in which case the oldest unread ones (and only those) have
    /// been dropped — and records the delivery in the subscription's trace.
    pub fn recv(&self, sub: &mut Subscription) -> (r: Option<String>)
        requires
            self.wf(),
            old(sub).wf(*self),
        ensures
            final(sub).wf(*self),
            ({
                let k = self.resume_point(*old(sub));
                if k == self.history().len() {
                    r is None && final(sub).cursor() == k && final(sub).received() == old(
                        sub,
                    ).received()
                } else {
                    r matches Some(m) && m@ == self.history()[k] && final(sub).cursor() == k + 1
                        && final(sub).received() == old(sub).received().push(k)
                }
            }),
    {
        let k = if sub.next < self.start {
            self.start
        } else {
            sub.next
        };
        if k - self.start < self.buffer.len() {
            let m = self.buffer[k - self.start].clone();
            sub.next = k + 1;
            proof {
                sub.delivered@ = sub.delivered@.push(k as int);
            }
            Some(m)
        } else {
            sub.next = k;
            None
        }
    }

    /// Receive everything still pending, in publish order.
    ///
    /// Fan-out completeness: every message published after this
    /// subscription was taken and still live — absent induced
    /// slow-consumer drops, that is all of them — is delivered, in order,
    /// whichever session published it; afterwards the subscription has
    /// caught up with the history.
    pub fn drain(&self, sub: &mut Subscription) -> (msgs: Vec<String>)
        requires
            self.wf(),
            old(sub).wf(*self),
        ensures
            final(sub).wf(*self),
            final(sub).cursor() == self.history().len(),
            ({
                let k0 = self.resume_point(*old(sub));
                &&& msgs@.len() == self.history().len() - k0
                &&& forall|i: int| 0 <= i < msgs@.len() ==> msgs@[i]@ == self.history()[k0 + i]
                &&& final(sub).received() == old(sub).received() + Seq::new(
                    (self.history().len() - k0) as nat,
                    |i: int| k0 + i,
                )
                &&& forall|k: int|
                    k0 <= k < self.history().len() ==> final(sub).received().contains(k)
            }),
    {
        let ghost k0 = self.resume_point(*old(sub));
        let mut msgs: Vec<String> = Vec::new();
        loop
            invariant
                self.wf(),
                sub.wf(*self),
                k0 == self.resume_point(*old(sub)),
                msgs@.len() == 0 ==> *sub == *old(sub),
                msgs@.len() > 0 ==> sub.cursor() == k0 + msgs@.len() && sub.received() == old(
                    sub,
                ).received() + Seq::new(msgs@.len(), |i: int| k0 + i),
                forall|i: int| 0 <= i < msgs@.len() ==> msgs@[i]@ == self.history()[k0 + i],
                k0 + msgs@.len() <= self.history().len(),
            decreases self.history().len() - self.resume_point(*sub),
        {
            let ghost prev = *sub;
            let ghost n0 = msgs@.len() as int;
            match self.recv(sub) {
                Some(m) => {
                    proof {
                        if n0 == 0 {
                            assert(self.resume_point(prev) == k0);
                        } else {
                            assert(prev.cursor() == k0 + n0);
                            assert(prev.cursor() >= self.oldest_live());
                            assert(self.resume_point(prev) == k0 + n0);
                        }
                    }
                    msgs.push(m);
                    proof {
                        assert(sub.received() =~= old(sub).received() + Seq::new(
                            msgs@.len(),
                            |i: int| k0 + i,
                        ));
                    }
                },
                None => {
                    proof {
                        if n0 == 0 {
                            assert(self.resume_point(prev) == k0);
                            assert(k0 == self.history().len());
                            assert(sub.received() =~= old(sub).received() + Seq::new(
                                0,
                                |i: int| k0 + i,
                            ));
                        } else {
                            assert(self.resume_point(prev) == k0 + n0);
                            assert(k0 + n0 == self.history().len());
                        }
                        assert(msgs@.len() == self.history().len() - k0);
                        assert forall|k: int|
                            k0 <= k < self.history().len() implies sub.received().contains(k) by {
                            let at = old(sub).received().len() + (k - k0);
                            assert(0 <= at < sub.received().len());
                            assert(sub.received()[at] == k);
                        }
                    }
                    return msgs;
                },
            }
        }
    }
}

impl Subscription {
    /// The history index of the next message this subscription expects.
    pub closed spec fn cursor(&self) -> int {
        self.next as int
    }

    /// The trace of history indices delivered to this subscription so far,
    /// in delivery order.
    pub closed spec fn received(&self) -> Seq<int> {
        self.delivered@
    }

    /// The subscription never runs ahead of the history, and its delivery
    /// trace is strictly increasing: deliveries happen in publish order,
    /// each at most once.
    pub closed spec fn wf(&self, hub: Hub) -> bool {
        &&& self.next <= hub.history().len()
        &&& forall|a: int, b: int|
            #![trigger self.delivered@[a], self.delivered@[b]]
            0 <= a < b < self.delivered@.len() ==> self.delivered@[a] < self.delivered@[b]
        &&& forall|a: int|
            0 <= a < self.delivered@.len() ==> 0 <= #[trigger] self.delivered@[a] < self.next
    }

    /// Publishing more messages never invalidates an existing
    /// subscription; it only lengthens what the subscription may yet see.
    pub proof fn lemma_wf_after_publish(&self, before: Hub, after: Hub)
        requires
            self.wf(before),
            before.history().len() <= after.history().len(),
        ensures
            self.wf(after),
    {
    }
}

/// Order preservation: a subscriber's delivery trace is strictly
/// increasing in history order. So if one sender publishes a message m1
/// and later m2 — m1 standing earlier in the hub's single history than m2
/// — every subscriber that receives both received m1 before m2.
pub proof fn lemma_order_preservation(hub: Hub, sub: Subscription, a: int, b: int)
    requires
        sub.wf(hub),
        0 <= a < b < sub.received().len(),
    ensures
        sub.received()[a] < sub.received()[b],
{
}

} // verus!
