//! The subscriber registry and the broadcast fan-out.
//!
//! Each subscriber owns an unbounded outbound channel; a broadcast walks the
//! registry once and queues the already-serialized text frame on every
//! subscriber's channel, fire-and-forget: a failed send is reported to the
//! caller and never stops delivery to the remaining subscribers.

use vstd::prelude::*;
use futures_channel::mpsc::UnboundedSender;
use tokio_tungstenite::tungstenite::protocol::Message;

verus! {

/// Declares futures_channel's unbounded sender so registry entries can hold
/// one; it is opaque here, touched only through `send_text`.
#[verifier::external_type_specification]
#[verifier::external_body]
#[verifier::reject_recursive_types(T)]
pub struct ExUnboundedSender<T>(UnboundedSender<T>);

/// Declares tungstenite's frame type, which the senders carry; it is opaque
/// here, built only inside `send_text`.
#[verifier::external_type_specification]
#[verifier::external_body]
pub struct ExMessage(Message);

/// Relies on futures_channel::mpsc::UnboundedSender::unbounded_send: queues
/// a tungstenite text frame on the subscriber's outbound channel. Whether it
/// succeeds depends on whether the receiving half is still there, so nothing
/// is promised of the outcome.
#[verifier::external_body]
fn send_text(tx: &UnboundedSender<Message>, text: &str) -> bool {
    tx.unbounded_send(Message::Text(text.into())).is_ok()
}

/// The currently-connected push clients, each under a registry-assigned
/// identity that is never reused.
pub struct SubscriberRegistry {
    peers: Vec<(u64, UnboundedSender<Message>)>,
    next_id: u64,
}

impl SubscriberRegistry {
    /// The registered subscriber identities, in registration order.
    pub closed spec fn ids(&self) -> Seq<u64> {
        self.peers@.map_values(|peer: (u64, UnboundedSender<Message>)| peer.0)
    }

    /// Identities above every one ever assigned; `register` hands them out
    /// in order.
    pub closed spec fn fresh_bound(&self) -> u64 {
        self.next_id
    }

    /// Identities are unique and below the fresh bound.
    pub closed spec fn wf(&self) -> bool {
        &&& forall|i: int, j: int|
            0 <= i < j < self.peers@.len() ==> self.peers@[i].0 != self.peers@[j].0
        &&& forall|i: int| 0 <= i < self.peers@.len() ==> self.peers@[i].0 < self.next_id
    }

    /// An empty registry.
    pub fn new() -> (reg: SubscriberRegistry)
        ensures
            reg.wf(),
            reg.ids() == Seq::<u64>::empty(),
    {
        let reg = SubscriberRegistry { peers: Vec::new(), next_id: 0 };
        proof {
            assert(reg.ids() =~= Seq::<u64>::empty());
        }
        reg
    }

    /// Adds a subscriber and returns its identity: fresh (never registered
    /// before, in particular absent from the registry every earlier
    /// broadcast enumerated) and appended to the registration order.
    pub fn register(&mut self, tx: UnboundedSender<Message>) -> (id: u64)
        requires
            old(self).wf(),
            old(self).fresh_bound() < u64::MAX,
        ensures
            final(self).wf(),
            id == old(self).fresh_bound(),
            !old(self).ids().contains(id),
            final(self).ids() == old(self).ids().push(id),
            final(self).fresh_bound() == id + 1,
    {
        let id = self.next_id;
        self.next_id = self.next_id + 1;
        self.peers.push((id, tx));
        proof {
            assert(self.ids() =~= old(self).ids().push(id));
            assert(forall|i: int|
                0 <= i < old(self).ids().len() ==> old(self).ids()[i] == old(self).peers@[i].0);
        }
        id
    }

    /// Removes the subscriber under `id`; removing an absent identity is a
    /// no-op. Afterwards `id` is registered no longer; every other
    /// subscriber keeps its place in the registration order.
    pub fn unregister(&mut self, id: u64)
        requires
            old(self).wf(),
        ensures
            final(self).wf(),
            final(self).fresh_bound() == old(self).fresh_bound(),
            !final(self).ids().contains(id),
            old(self).ids().contains(id) ==> final(self).ids() == old(self).ids().remove(
                old(self).ids().index_of(id),
            ),
            !old(self).ids().contains(id) ==> *final(self) == *old(self),
    {
        let n = self.peers.len();
        let mut i: usize = 0;
        while i < n
            invariant
                n == self.peers@.len(),
                i <= n,
                self.wf(),
                *self == *old(self),
                forall|k: int| 0 <= k < i ==> self.peers@[k].0 != id,
            decreases n - i,
        {
            if self.peers[i].0 == id {
                self.peers.remove(i);
                proof {
                    let before = old(self).ids();
                    assert(before[i as int] == id);
                    assert(before.contains(id));
                    let j = before.index_of(id);
                    assert(before[j] == id);
                    assert(j == i as int);
                    assert(self.ids() =~= before.remove(i as int));
                    assert forall|k: int| 0 <= k < self.ids().len() implies self.ids()[k]
                        != id by {
                        if k < i as int {
                            assert(self.ids()[k] == before[k]);
                        } else {
                            assert(self.ids()[k] == before[k + 1]);
                        }
                    }
                }
                return;
            }
            i = i + 1;
        }
        proof {
            if old(self).ids().contains(id) {
                let j = choose|j: int|
                    0 <= j < old(self).ids().len() && old(self).ids()[j] == id;
                assert(old(self).peers@[j].0 == id);
            }
        }
    }

    /// The registration order mentions each identity at most once, so a
    /// broadcast's report holds exactly one delivery attempt per registered
    /// subscriber.
    pub proof fn lemma_ids_unique(&self)
        requires
            self.wf(),
        ensures
            forall|i: int, j: int|
                0 <= i < j < self.ids().len() ==> self.ids()[i] != self.ids()[j],
    {
        assert forall|i: int, j: int|
            0 <= i < j < self.ids().len() implies self.ids()[i] != self.ids()[j] by {
            assert(self.ids()[i] == self.peers@[i].0);
            assert(self.ids()[j] == self.peers@[j].0);
        }
    }

    /// Whether another subscriber can still be registered: identities are
    /// never reused, so the registry ends after the last one is handed out.
    pub fn can_register(&self) -> (r: bool)
        ensures
            r == (self.fresh_bound() < u64::MAX),
    {
        self.next_id < u64::MAX
    }

    /// The number of registered subscribers.
    pub fn len(&self) -> (n: usize)
        ensures
            n == self.ids().len(),
    {
        self.peers.len()
    }
}

/// Broadcasts one already-serialized text frame: attempts delivery to every
/// subscriber registered at the moment of enumeration, each exactly once, in
/// registration order, and to no one else. The report pairs each subscriber's
/// identity with whether its queueing succeeded; a failure leaves that
/// subscriber for its connection handler to unregister and never aborts the
/// remaining deliveries. The registry itself is read, not changed.
pub fn ws_push(subscribers: &SubscriberRegistry, msg: &str) -> (report: Vec<(u64, bool)>)
    requires
        subscribers.wf(),
    ensures
        report@.len() == subscribers.ids().len(),
        forall|i: int| 0 <= i < report@.len() ==> report@[i].0 == subscribers.ids()[i],
{
    let n = subscribers.len();
    let mut report: Vec<(u64, bool)> = Vec::new();
    let mut i: usize = 0;
    while i < n
        invariant
            subscribers.wf(),
            n == subscribers.ids().len(),
            i <= n,
            report@.len() == i,
            forall|k: int| 0 <= k < i ==> report@[k].0 == subscribers.ids()[k],
        decreases n - i,
    {
        let (id, delivered) = subscribers.send_to(i, msg);
        report.push((id, delivered));
        i = i + 1;
    }
    report
}

impl SubscriberRegistry {
    /// Attempts delivery of one frame to the subscriber at position `at` in
    /// the registration order; reports its identity and whether queueing
    /// succeeded.
    fn send_to(&self, at: usize, msg: &str) -> (r: (u64, bool))
        requires
            self.wf(),
            at < self.ids().len(),
        ensures
            r.0 == self.ids()[at as int],
    {
        let delivered = send_text(&self.peers[at].1, msg);
        (self.peers[at].0, delivered)
    }
}

/// An identity that is not registered when a broadcast enumerates — one
/// unregistered strictly before the call, or one first registered after the
/// call returned — appears nowhere in that broadcast's delivery report: no
/// delivery to it was attempted.
pub proof fn lemma_absent_subscriber_gets_nothing(
    ids: Seq<u64>,
    report: Seq<(u64, bool)>,
    id: u64,
)
    requires
        report.len() == ids.len(),
        forall|i: int| 0 <= i < report.len() ==> report[i].0 == ids[i],
        !ids.contains(id),
    ensures
        forall|i: int| 0 <= i < report.len() ==> report[i].0 != id,
{
    assert forall|i: int| 0 <= i < report.len() implies report[i].0 != id by {
        assert(report[i].0 == ids[i]);
    }
}

} // verus!
