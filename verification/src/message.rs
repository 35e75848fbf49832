//! Messages between callers and the device worker, and the subscriptions
//! through which replies travel back.

use vstd::prelude::*;
use tokio::sync::mpsc::{Receiver, Sender};

verus! {

/// The sending half of a tokio channel. Its content is not modelled.
#[verifier::external_type_specification]
#[verifier::external_body]
#[verifier::reject_recursive_types(T)]
pub struct ExSender<T>(Sender<T>);

/// The receiving half of a tokio channel. Its content is not modelled.
#[verifier::external_type_specification]
#[verifier::external_body]
#[verifier::reject_recursive_types(T)]
pub struct ExReceiver<T>(Receiver<T>);

/// How many replies may wait in the channel of one subscription.
pub const REPLY_QUEUE_CAPACITY: usize = 32;

/// What the worker hands to a subscriber.
#[derive(Debug)]
pub enum OutMessage {
    /// An inbound frame, from its second byte on.
    Response(Vec<u8>),
    /// The hardware is gone; nothing more will come.
    DeviceDisconnect,
}

/// Mathematical content of an [`OutMessage`].
pub enum OutMessageView {
    Response(Seq<u8>),
    DeviceDisconnect,
}

impl View for OutMessage {
    type V = OutMessageView;

    open spec fn view(&self) -> OutMessageView {
        match self {
            OutMessage::Response(packet) => OutMessageView::Response(packet@),
            OutMessage::DeviceDisconnect => OutMessageView::DeviceDisconnect,
        }
    }
}

/// When a subscription ends.
#[derive(Copy, Clone, Debug, PartialEq, Eq, Structural)]
pub enum UnSubscribePolicy {
    /// After that many deliveries.
    Count(usize),
    /// Only when the device disconnects.
    Never,
    /// When the byte at the given offset of a payload equals the given
    /// value, or the payload has no such byte.
    SpecificIsOn(usize, u8),
    /// When the byte at the given offset of a payload differs from the
    /// given value, or the payload has no such byte.
    SpecificNotOn(usize, u8),
}

impl UnSubscribePolicy {
    /// Whether the subscription ends with the delivery of `msg`, the
    /// `count`-th one it receives. A disconnect notice always ends it.
    pub open spec fn disposes(self, msg: OutMessageView, count: nat) -> bool {
        match msg {
            OutMessageView::DeviceDisconnect => true,
            OutMessageView::Response(packet) => match self {
                UnSubscribePolicy::Count(n) => count >= n,
                UnSubscribePolicy::Never => false,
                UnSubscribePolicy::SpecificIsOn(index, byte) => index >= packet.len()
                    || packet[index as int] == byte,
                UnSubscribePolicy::SpecificNotOn(index, byte) => index >= packet.len()
                    || packet[index as int] != byte,
            },
        }
    }

    pub fn need_dispose(&self, msg: &OutMessage, count: usize) -> (dispose: bool)
        ensures
            dispose == self.disposes(msg@, count as nat),
    {
        match msg {
            OutMessage::Response(packet) => match self {
                UnSubscribePolicy::Count(n) => count >= *n,
                UnSubscribePolicy::Never => false,
                UnSubscribePolicy::SpecificIsOn(index, byte) => {
                    if *index < packet.len() {
                        packet[*index] == *byte
                    } else {
                        true
                    }
                },
                UnSubscribePolicy::SpecificNotOn(index, byte) => {
                    if *index < packet.len() {
                        packet[*index] != *byte
                    } else {
                        true
                    }
                },
            },
            OutMessage::DeviceDisconnect => true,
        }
    }
}

/// The delivery counter after one more delivery. It stops at `usize::MAX`.
pub open spec fn next_count(count: nat) -> nat {
    if count < usize::MAX {
        count + 1
    } else {
        count
    }
}

/// Whether a subscription ends after a delivery: when its policy says so,
/// and also when its channel did not take the message.
pub open spec fn ends_after(by_policy: bool, accepted: bool) -> bool {
    by_policy || !accepted
}

/// Decides the end of a subscription from what its policy said of a message
/// and from whether its channel took the message.
pub fn dispose_decision(by_policy: bool, accepted: bool) -> (dispose: bool)
    ensures
        dispose == ends_after(by_policy, accepted),
{
    by_policy || !accepted
}

/// One waiting caller: where its replies go, when it ends, and how many
/// deliveries it has had. It also keeps the record of what its channel
/// took.
pub struct Subscription {
    sender: Sender<OutMessage>,
    policy: UnSubscribePolicy,
    count: usize,
    handed: Ghost<Seq<OutMessageView>>,
}

/// What the worker's decisions depend on in a [`Subscription`], and what
/// they leave behind in it.
pub struct SubscriptionView {
    pub policy: UnSubscribePolicy,
    /// How many deliveries were counted.
    pub count: nat,
    /// The messages that the channel took, the oldest first.
    pub handed: Seq<OutMessageView>,
}

impl SubscriptionView {
    /// A subscription before its first delivery.
    pub open spec fn fresh(policy: UnSubscribePolicy) -> SubscriptionView {
        SubscriptionView { policy, count: 0, handed: Seq::empty() }
    }

    /// This subscription after `msg` was offered to its channel without
    /// being counted; `accepted` says whether the channel took it.
    pub open spec fn after_notice(self, msg: OutMessageView, accepted: bool) -> SubscriptionView {
        SubscriptionView {
            handed: if accepted {
                self.handed.push(msg)
            } else {
                self.handed
            },
            ..self
        }
    }

    /// This subscription after the delivery of `msg`; `accepted` says
    /// whether the channel took it.
    pub open spec fn after_send(self, msg: OutMessageView, accepted: bool) -> SubscriptionView {
        SubscriptionView { count: next_count(self.count), ..self.after_notice(msg, accepted) }
    }

    /// Whether this subscription ends with the delivery of `msg`.
    pub open spec fn ends_with(self, msg: OutMessageView, accepted: bool) -> bool {
        ends_after(self.policy.disposes(msg, next_count(self.count)), accepted)
    }
}

impl View for Subscription {
    type V = SubscriptionView;

    closed spec fn view(&self) -> SubscriptionView {
        SubscriptionView { policy: self.policy, count: self.count as nat, handed: self.handed@ }
    }
}

/// A number of deliveries as the counter shows it: the counter stops at
/// `usize::MAX`.
pub open spec fn capped(deliveries: nat) -> nat {
    if deliveries <= usize::MAX {
        deliveries
    } else {
        usize::MAX as nat
    }
}

/// The payloads of `payloads` as messages.
pub open spec fn responses(payloads: Seq<Seq<u8>>) -> Seq<OutMessageView> {
    Seq::new(payloads.len(), |i: int| OutMessageView::Response(payloads[i]))
}

/// The subscription `subscription` after the payloads of `payloads` were
/// delivered to it in this order, each taken by its channel; nothing once a
/// delivery has ended it.
pub open spec fn after_deliveries(
    subscription: SubscriptionView,
    payloads: Seq<Seq<u8>>,
) -> Option<SubscriptionView>
    decreases payloads.len(),
{
    if payloads.len() == 0 {
        Some(subscription)
    } else {
        match after_deliveries(subscription, payloads.drop_last()) {
            None => None,
            Some(before) => if before.ends_with(
                OutMessageView::Response(payloads.last()),
                true,
            ) {
                None
            } else {
                Some(before.after_send(OutMessageView::Response(payloads.last()), true))
            },
        }
    }
}

/// The counter that stops at `usize::MAX` decides as an unbounded counter
/// would: no policy can tell them apart.
pub proof fn lemma_counter_limit_is_invisible(
    policy: UnSubscribePolicy,
    msg: OutMessageView,
    deliveries: nat,
)
    ensures
        policy.disposes(msg, capped(deliveries)) == policy.disposes(msg, deliveries),
        capped(deliveries + 1) == next_count(capped(deliveries)),
{
}

/// A fresh subscription that lives through a run of deliveries has counted
/// them and holds their payloads, in their order.
pub proof fn lemma_alive_state(policy: UnSubscribePolicy, payloads: Seq<Seq<u8>>)
    ensures
        after_deliveries(SubscriptionView::fresh(policy), payloads) matches Some(now) ==> now
            == (SubscriptionView {
            policy,
            count: capped(payloads.len()),
            handed: responses(payloads),
        }),
    decreases payloads.len(),
{
    let fresh = SubscriptionView::fresh(policy);
    if payloads.len() == 0 {
        assert(responses(payloads) =~= fresh.handed);
    } else {
        lemma_alive_state(policy, payloads.drop_last());
        if after_deliveries(fresh, payloads) is Some {
            assert(responses(payloads.drop_last()).push(OutMessageView::Response(payloads.last()))
                =~= responses(payloads));
        }
    }
}

/// A subscription for `n` deliveries, `n` at least one, ends exactly with
/// the `n`-th delivery and not before: it lives through a run of deliveries
/// if and only if the run is shorter than `n`.
pub proof fn lemma_count_ends_at_nth(n: usize, payloads: Seq<Seq<u8>>)
    requires
        n >= 1,
    ensures
        after_deliveries(SubscriptionView::fresh(UnSubscribePolicy::Count(n)), payloads) is Some
            <==> payloads.len() < n,
    decreases payloads.len(),
{
    if payloads.len() > 0 {
        lemma_count_ends_at_nth(n, payloads.drop_last());
        lemma_alive_state(UnSubscribePolicy::Count(n), payloads.drop_last());
    }
}

/// The `k`-th delivery to a subscription for `n` deliveries ends it exactly
/// when `k` has reached `n`; a delivery that the channel took is counted
/// and stands last in the record.
pub proof fn lemma_count_kth_delivery(
    n: usize,
    k: nat,
    handed: Seq<OutMessageView>,
    payload: Seq<u8>,
)
    requires
        1 <= k <= usize::MAX,
    ensures
        ({
            let before = SubscriptionView {
                policy: UnSubscribePolicy::Count(n),
                count: (k - 1) as nat,
                handed,
            };
            let msg = OutMessageView::Response(payload);
            &&& before.ends_with(msg, true) == (k >= n)
            &&& before.after_send(msg, true).count == k
            &&& before.after_send(msg, true).handed == handed.push(msg)
        }),
{
}

/// A subscription that ends on a byte other than `value` at `offset` lives
/// exactly while every payload has a byte at `offset` and that byte is
/// `value`: it ends with the first payload that is too short or holds
/// another byte there.
pub proof fn lemma_not_on_alive(offset: usize, value: u8, payloads: Seq<Seq<u8>>)
    ensures
        after_deliveries(
            SubscriptionView::fresh(UnSubscribePolicy::SpecificNotOn(offset, value)),
            payloads,
        ) is Some <==> forall|i: int|
            0 <= i < payloads.len() ==> (#[trigger] payloads[i]).len() > offset
                && payloads[i][offset as int] == value,
    decreases payloads.len(),
{
    let policy = UnSubscribePolicy::SpecificNotOn(offset, value);
    if payloads.len() > 0 {
        let shorter = payloads.drop_last();
        lemma_not_on_alive(offset, value, shorter);
        lemma_alive_state(policy, shorter);
        let good = |p: Seq<u8>| p.len() > offset && p[offset as int] == value;
        if forall|i: int| 0 <= i < payloads.len() ==> good(#[trigger] payloads[i]) {
            assert forall|i: int| 0 <= i < shorter.len() implies good(#[trigger] shorter[i]) by {
                assert(shorter[i] == payloads[i]);
            }
            assert(good(payloads[payloads.len() - 1]));
        } else {
            let bad = choose|i: int| 0 <= i < payloads.len() && !good(#[trigger] payloads[i]);
            if bad < shorter.len() {
                assert(shorter[bad] == payloads[bad]);
            }
        }
    }
}

/// A subscription that ends on the byte `value` at `offset` lives exactly
/// while every payload has a byte at `offset` and that byte is not `value`;
/// a payload that is too short ends it, and so does one that holds `value`
/// there.
pub proof fn lemma_is_on_alive(offset: usize, value: u8, payloads: Seq<Seq<u8>>)
    ensures
        after_deliveries(
            SubscriptionView::fresh(UnSubscribePolicy::SpecificIsOn(offset, value)),
            payloads,
        ) is Some <==> forall|i: int|
            0 <= i < payloads.len() ==> (#[trigger] payloads[i]).len() > offset
                && payloads[i][offset as int] != value,
    decreases payloads.len(),
{
    let policy = UnSubscribePolicy::SpecificIsOn(offset, value);
    if payloads.len() > 0 {
        let shorter = payloads.drop_last();
        lemma_is_on_alive(offset, value, shorter);
        lemma_alive_state(policy, shorter);
        let good = |p: Seq<u8>| p.len() > offset && p[offset as int] != value;
        if forall|i: int| 0 <= i < payloads.len() ==> good(#[trigger] payloads[i]) {
            assert forall|i: int| 0 <= i < shorter.len() implies good(#[trigger] shorter[i]) by {
                assert(shorter[i] == payloads[i]);
            }
            assert(good(payloads[payloads.len() - 1]));
        } else {
            let bad = choose|i: int| 0 <= i < payloads.len() && !good(#[trigger] payloads[i]);
            if bad < shorter.len() {
                assert(shorter[bad] == payloads[bad]);
            }
        }
    }
}

/// No payload ends a subscription under the policy `Never`.
pub proof fn lemma_never_alive(payloads: Seq<Seq<u8>>)
    ensures
        after_deliveries(SubscriptionView::fresh(UnSubscribePolicy::Never), payloads) is Some,
    decreases payloads.len(),
{
    if payloads.len() > 0 {
        lemma_never_alive(payloads.drop_last());
        lemma_alive_state(UnSubscribePolicy::Never, payloads.drop_last());
    }
}

/// A disconnect notice ends every subscription, whatever its policy and
/// whether or not its channel takes the notice.
pub proof fn lemma_disconnect_ends(subscription: SubscriptionView, accepted: bool)
    ensures
        subscription.ends_with(OutMessageView::DeviceDisconnect, accepted),
{
}

/// `tokio::sync::mpsc::channel`: a new bounded channel that holds up to
/// `capacity` messages. tokio panics on a capacity of zero or above an
/// eighth of `usize::MAX`.
#[verifier::external_body]
fn bounded_channel(capacity: usize) -> (ends: (Sender<OutMessage>, Receiver<OutMessage>))
    requires
        0 < capacity <= usize::MAX / 8,
{
    tokio::sync::mpsc::channel::<OutMessage>(capacity)
}

/// `Sender::try_send`: puts the message into the channel without waiting.
/// It is refused when the channel is full or its receiver is gone; which of
/// these holds depends on the other end, so nothing is promised.
#[verifier::external_body]
fn try_deliver(sender: &Sender<OutMessage>, msg: OutMessage) -> (accepted: bool) {
    sender.try_send(msg).is_ok()
}

impl Subscription {
    /// A fresh subscription with no deliveries, and the receiving end of
    /// its reply channel.
    pub fn new(policy: UnSubscribePolicy) -> (pair: (Self, Receiver<OutMessage>))
        ensures
            pair.0@ == SubscriptionView::fresh(policy),
    {
        let (sender, receiver) = bounded_channel(REPLY_QUEUE_CAPACITY);
        (Self { sender, policy, count: 0, handed: Ghost(Seq::empty()) }, receiver)
    }

    pub fn policy(&self) -> (policy: UnSubscribePolicy)
        ensures
            policy == self@.policy,
    {
        self.policy
    }

    pub fn count(&self) -> (count: usize)
        ensures
            count == self@.count,
    {
        self.count
    }

    /// Counts one delivery and offers `msg` to the subscriber without
    /// waiting. Returns whether the subscription is to end: when its policy
    /// says so for this message, and also when the channel did not take the
    /// message.
    pub fn send(&mut self, msg: OutMessage) -> (dispose: bool)
        ensures
            exists|accepted: bool|
                {
                    &&& final(self)@ == #[trigger] old(self)@.after_send(msg@, accepted)
                    &&& dispose == old(self)@.ends_with(msg@, accepted)
                },
            !dispose ==> final(self)@ == old(self)@.after_send(msg@, true),
            final(self)@.count == next_count(old(self)@.count),
            old(self)@.policy.disposes(msg@, next_count(old(self)@.count)) ==> dispose,
    {
        self.count = self.count.saturating_add(1);
        let by_policy = self.policy.need_dispose(&msg, self.count);
        let ghost content = msg@;
        let accepted = try_deliver(&self.sender, msg);
        proof {
            if accepted {
                self.handed@ = self.handed@.push(content);
            }
            assert(self@ == old(self)@.after_send(content, accepted));
        }
        dispose_decision(by_policy, accepted)
    }

    /// Offers `msg` to the subscriber without waiting and without
    /// counting; a full or closed channel is passed over.
    pub fn send_no_check(&mut self, msg: OutMessage)
        ensures
            exists|accepted: bool| final(self)@ == #[trigger] old(self)@.after_notice(msg@, accepted),
    {
        let ghost content = msg@;
        let accepted = try_deliver(&self.sender, msg);
        proof {
            if accepted {
                self.handed@ = self.handed@.push(content);
            }
            assert(self@ == old(self)@.after_notice(content, accepted));
        }
    }
}

/// A request to the device worker.
pub enum InMessage {
    /// Write the frame; no reply is expected.
    SendPacket(Vec<u8>),
    /// Register the subscription under the correlation key of the frame,
    /// then write the frame.
    SendPacketAndSubscribe(Vec<u8>, Subscription),
    /// Register the subscription under the key.
    Subscribe(u8, Subscription),
    /// Drop the subscription under the key, if any.
    UnSubscribe(u8),
}

/// Mathematical content of an [`InMessage`].
pub enum InMessageView {
    SendPacket(Seq<u8>),
    SendPacketAndSubscribe(Seq<u8>, SubscriptionView),
    Subscribe(u8, SubscriptionView),
    UnSubscribe(u8),
}

impl View for InMessage {
    type V = InMessageView;

    open spec fn view(&self) -> InMessageView {
        match self {
            InMessage::SendPacket(data) => InMessageView::SendPacket(data@),
            InMessage::SendPacketAndSubscribe(data, subscription) => {
                InMessageView::SendPacketAndSubscribe(data@, subscription@)
            },
            InMessage::Subscribe(key, subscription) => InMessageView::Subscribe(
                *key,
                subscription@,
            ),
            InMessage::UnSubscribe(key) => InMessageView::UnSubscribe(*key),
        }
    }
}

} // verus!
