//! The decisions of the device worker.
//!
//! One worker owns the hardware handle. It cycles through two phases: it
//! first drains the queue of outbound requests, writing what they ask to
//! write, and only when that queue is found empty it performs one timed
//! read and hands the frame it read to the subscriber registered for it.
//! Any failed write or read is told to every subscriber and empties the
//! registry. The worker itself performs the writes and reads; what to do
//! with their results is decided here.

use vstd::prelude::*;
use vstd::slice::{slice_subrange, slice_to_vec};
use std::collections::HashMap;
use crate::message::{
    InMessage, InMessageView, OutMessage, OutMessageView, Subscription, SubscriptionView,
};

verus! {

broadcast use vstd::std_specs::hash::group_hash_axioms;

/// The correlation key that stands in for the sub-command byte 1, which is
/// also the value of the logical channel.
pub const REMAPPED_KEY: u8 = 50;

/// How long one read may wait for a frame, in milliseconds.
pub const READ_TIMEOUT_MS: i32 = 16;

/// How many requests may wait in the queue to the worker.
pub const OUTBOUND_QUEUE_CAPACITY: usize = 255;

/// The correlation key under which the reply to the outbound frame `data`
/// is expected: its sub-command byte, with the value 1 moved to
/// [`REMAPPED_KEY`].
pub open spec fn correlation_key_of(data: Seq<u8>) -> u8
    recommends
        data.len() >= 2,
{
    if data[1] == 1 {
        REMAPPED_KEY
    } else {
        data[1]
    }
}

pub fn correlation_key(data: &[u8]) -> (key: u8)
    requires
        data@.len() >= 2,
    ensures
        key == correlation_key_of(data@),
{
    if data[1] == 1 {
        REMAPPED_KEY
    } else {
        data[1]
    }
}

/// A request that the worker can serve: a frame to correlate has the two
/// bytes of the transport header, of which the second is its key.
pub open spec fn serviceable(msg: InMessageView) -> bool {
    msg matches InMessageView::SendPacketAndSubscribe(data, _) ==> data.len() >= 2
}

/// The registry after the request `msg`.
pub open spec fn registry_after_request(
    registry: Map<u8, SubscriptionView>,
    msg: InMessageView,
) -> Map<u8, SubscriptionView> {
    match msg {
        InMessageView::SendPacket(_) => registry,
        InMessageView::SendPacketAndSubscribe(data, subscription) => registry.insert(
            correlation_key_of(data),
            subscription,
        ),
        InMessageView::Subscribe(key, subscription) => registry.insert(key, subscription),
        InMessageView::UnSubscribe(key) => registry.remove(key),
    }
}

/// The frame that the request `msg` asks to write, if any.
pub open spec fn frame_of_request(msg: InMessageView) -> Option<Seq<u8>> {
    match msg {
        InMessageView::SendPacket(data) => Some(data),
        InMessageView::SendPacketAndSubscribe(data, _) => Some(data),
        InMessageView::Subscribe(_, _) => None,
        InMessageView::UnSubscribe(_) => None,
    }
}

/// Whether a read that reported `len` bytes into `buf` carries a frame for
/// a subscriber: it read something, and the buffer holds a key.
pub open spec fn carries_frame(buf: Seq<u8>, len: nat) -> bool {
    len > 0 && buf.len() >= 2
}

/// What a subscriber receives of the read buffer `buf`: all of it but the
/// channel byte.
pub open spec fn payload_of(buf: Seq<u8>) -> Seq<u8> {
    if buf.len() >= 1 {
        buf.subrange(1, buf.len() as int)
    } else {
        Seq::empty()
    }
}

/// Copies out of the read buffer what a subscriber receives.
pub fn frame_payload(buf: &[u8]) -> (payload: Vec<u8>)
    ensures
        payload@ == payload_of(buf@),
{
    if buf.len() >= 1 {
        slice_to_vec(slice_subrange(buf, 1, buf.len()))
    } else {
        Vec::new()
    }
}

/// Mathematical content of a subscriber that is handed back, if one is.
pub open spec fn gone_view(gone: Option<Subscription>) -> Option<SubscriptionView> {
    match gone {
        Some(subscription) => Some(subscription@),
        None => None,
    }
}

/// The subscriber under `key`, if there is one, as it stands in the
/// registry.
pub open spec fn subscriber_at(registry: Map<u8, SubscriptionView>, key: u8) -> Option<
    SubscriptionView,
> {
    if registry.contains_key(key) {
        Some(registry[key])
    } else {
        None
    }
}

/// The subscriber that the request `msg` takes out of the registry: the
/// one whose key is registered anew, or the one that is unsubscribed. It
/// leaves as it stood: it is offered nothing.
pub open spec fn displaced_by_request(
    registry: Map<u8, SubscriptionView>,
    msg: InMessageView,
) -> Option<SubscriptionView> {
    match msg {
        InMessageView::SendPacket(_) => None,
        InMessageView::SendPacketAndSubscribe(data, _) => subscriber_at(
            registry,
            correlation_key_of(data),
        ),
        InMessageView::Subscribe(key, _) => subscriber_at(registry, key),
        InMessageView::UnSubscribe(key) => subscriber_at(registry, key),
    }
}

/// The subscriber that a read of `len` bytes into `buf` ends, where
/// `accepted` says whether its channel took the payload: the subscriber
/// under the key of the frame, after the delivery of the payload, when
/// that delivery ends it.
pub open spec fn gone_after_read(
    registry: Map<u8, SubscriptionView>,
    buf: Seq<u8>,
    len: nat,
    accepted: bool,
) -> Option<SubscriptionView> {
    if carries_frame(buf, len) && registry.contains_key(buf[1]) && registry[buf[1]].ends_with(
        OutMessageView::Response(payload_of(buf)),
        accepted,
    ) {
        Some(registry[buf[1]].after_send(OutMessageView::Response(payload_of(buf)), accepted))
    } else {
        None
    }
}

/// The registry after a read of `len` bytes into `buf`, where `accepted`
/// says whether the subscriber's channel took the payload: the subscriber
/// under the key of the frame has one delivery more, and is gone when that
/// delivery ends it.
pub open spec fn registry_after_read(
    registry: Map<u8, SubscriptionView>,
    buf: Seq<u8>,
    len: nat,
    accepted: bool,
) -> Map<u8, SubscriptionView> {
    if carries_frame(buf, len) && registry.contains_key(buf[1]) {
        let subscriber = registry[buf[1]];
        let msg = OutMessageView::Response(payload_of(buf));
        if subscriber.ends_with(msg, accepted) {
            registry.remove(buf[1])
        } else {
            registry.insert(buf[1], subscriber.after_send(msg, accepted))
        }
    } else {
        registry
    }
}

/// What became of a frame that was read.
#[derive(Copy, Clone, Debug, PartialEq, Eq, Structural)]
pub enum Delivery {
    /// The read was empty, or too short to hold a key.
    Ignored,
    /// Nobody is registered under the key of the frame.
    Unclaimed,
    /// The subscriber has the payload and stays registered.
    Kept,
    /// The subscriber was offered the payload and is no longer registered.
    Disposed,
}

/// The outcome of a read of `len` bytes into `buf`, where `accepted` says
/// whether the subscriber's channel took the payload.
pub open spec fn delivery_of(
    registry: Map<u8, SubscriptionView>,
    buf: Seq<u8>,
    len: nat,
    accepted: bool,
) -> Delivery {
    if !carries_frame(buf, len) {
        Delivery::Ignored
    } else if !registry.contains_key(buf[1]) {
        Delivery::Unclaimed
    } else if registry_after_read(registry, buf, len, accepted).contains_key(buf[1]) {
        Delivery::Kept
    } else {
        Delivery::Disposed
    }
}

/// The keys of `keys` below `bound`, in ascending order.
pub open spec fn keys_below(keys: Set<u8>, bound: int) -> Seq<u8>
    decreases bound,
{
    if bound <= 0 {
        Seq::empty()
    } else if keys.contains((bound - 1) as u8) {
        keys_below(keys, bound - 1).push((bound - 1) as u8)
    } else {
        keys_below(keys, bound - 1)
    }
}

/// All keys of `keys`, in ascending order.
pub open spec fn ascending_keys(keys: Set<u8>) -> Seq<u8> {
    keys_below(keys, 256)
}

/// `keys_below` lists exactly the keys below the bound, in strictly
/// ascending order.
pub proof fn lemma_keys_below(keys: Set<u8>, bound: int)
    requires
        0 <= bound <= 256,
    ensures
        forall|i: int| 0 <= i < keys_below(keys, bound).len() ==> keys.contains(
            #[trigger] keys_below(keys, bound)[i],
        ) && keys_below(keys, bound)[i] < bound,
        forall|i: int, j: int|
            0 <= i < j < keys_below(keys, bound).len() ==> keys_below(keys, bound)[i]
                < keys_below(keys, bound)[j],
        forall|key: u8| keys.contains(key) && key < bound ==> keys_below(keys, bound).contains(key),
    decreases bound,
{
    if bound > 0 {
        lemma_keys_below(keys, bound - 1);
        let shorter = keys_below(keys, bound - 1);
        let last = (bound - 1) as u8;
        if keys.contains(last) {
            let longer = shorter.push(last);
            assert(longer[longer.len() - 1] == last);
            assert forall|key: u8| keys.contains(key) && key < bound implies longer.contains(
                key,
            ) by {
                if key == last {
                    assert(longer[longer.len() - 1] == key);
                } else {
                    assert(shorter.contains(key));
                    let i = choose|i: int| 0 <= i < shorter.len() && shorter[i] == key;
                    assert(longer[i] == key);
                }
            }
        }
    }
}

/// Every key is listed once: the ascending list of a set of keys has no
/// key twice, holds exactly the keys of the set, and is as long as the set
/// is large.
pub proof fn lemma_ascending_keys(keys: Set<u8>)
    ensures
        ascending_keys(keys).no_duplicates(),
        ascending_keys(keys).to_set() == keys,
        keys.finite(),
        ascending_keys(keys).len() == keys.len(),
{
    let listed = ascending_keys(keys);
    lemma_keys_below(keys, 256);
    assert(listed.to_set() =~= keys) by {
        assert forall|key: u8| listed.to_set().contains(key) <==> keys.contains(key) by {
            if listed.to_set().contains(key) {
                let i = choose|i: int| 0 <= i < listed.len() && listed[i] == key;
                assert(keys.contains(listed[i]));
            }
        }
    }
    listed.unique_seq_to_set();
}

/// The subscribers of one device, by correlation key. A key has at most one
/// subscriber; registering under a taken key replaces the one before, which
/// is not told.
pub struct Registry {
    subscribes: HashMap<u8, Subscription>,
}

impl View for Registry {
    type V = Map<u8, SubscriptionView>;

    closed spec fn view(&self) -> Map<u8, SubscriptionView> {
        self.subscribes@.map_values(|s: Subscription| s@)
    }
}

impl Registry {
    pub fn new() -> (registry: Self)
        ensures
            registry@ == Map::<u8, SubscriptionView>::empty(),
    {
        let registry = Registry { subscribes: HashMap::new() };
        assert(registry@ =~= Map::<u8, SubscriptionView>::empty());
        registry
    }

    pub fn len(&self) -> (len: usize)
        ensures
            len == self@.len(),
            self@.dom().finite(),
    {
        assert(self@.dom() =~= self.subscribes@.dom());
        self.subscribes.len()
    }

    pub fn contains(&self, key: u8) -> (present: bool)
        ensures
            present == self@.contains_key(key),
    {
        self.subscribes.contains_key(&key)
    }

    /// Registers `subscription` under `key`, in place of what was there.
    /// The subscriber that was there is handed back as it stood: it is not
    /// told, and ends when the caller drops it.
    pub fn subscribe(&mut self, key: u8, subscription: Subscription) -> (displaced: Option<
        Subscription,
    >)
        ensures
            final(self)@ == old(self)@.insert(key, subscription@),
            gone_view(displaced) == subscriber_at(old(self)@, key),
    {
        let displaced = self.subscribes.insert(key, subscription);
        assert(self@ =~= old(self)@.insert(key, subscription@));
        displaced
    }

    /// Takes the subscription under `key` out of the registry, if there is
    /// one, and hands it back as it stood: it is not told, and ends when
    /// the caller drops it.
    pub fn unsubscribe(&mut self, key: u8) -> (removed: Option<Subscription>)
        ensures
            final(self)@ == old(self)@.remove(key),
            gone_view(removed) == subscriber_at(old(self)@, key),
    {
        let removed = self.subscribes.remove(&key);
        assert(self@ =~= old(self)@.remove(key));
        removed
    }

    /// Serves one request of the drain phase: updates the registry and
    /// returns the frame to write, if the request has one, and the
    /// subscriber that the request took out of the registry, if it took
    /// one. Of a frame to correlate, the subscription is registered before
    /// the frame is returned.
    pub fn accept(&mut self, msg: InMessage) -> (accepted: Accepted)
        requires
            serviceable(msg@),
        ensures
            final(self)@ == registry_after_request(old(self)@, msg@),
            match accepted.write {
                Some(data) => frame_of_request(msg@) == Some(data@),
                None => frame_of_request(msg@) is None,
            },
            gone_view(accepted.displaced) == displaced_by_request(old(self)@, msg@),
    {
        match msg {
            InMessage::SendPacket(data) => Accepted { write: Some(data), displaced: None },
            InMessage::SendPacketAndSubscribe(data, subscription) => {
                let key = correlation_key(data.as_slice());
                let displaced = self.subscribe(key, subscription);
                Accepted { write: Some(data), displaced }
            },
            InMessage::Subscribe(key, subscription) => {
                let displaced = self.subscribe(key, subscription);
                Accepted { write: None, displaced }
            },
            InMessage::UnSubscribe(key) => {
                let displaced = self.unsubscribe(key);
                Accepted { write: None, displaced }
            },
        }
    }

    /// Serves the read phase: `len` is what the read reported, `buf` the
    /// buffer it read into. The subscriber registered under the second byte
    /// of the buffer, if there is one, is offered the buffer from that byte
    /// on, and leaves the registry when its policy says so or its channel
    /// does not take the payload. A subscriber that leaves is handed back,
    /// with the payload in its record if its channel took it; it ends when
    /// the caller drops it. Nobody else is offered anything.
    pub fn dispatch(&mut self, buf: &[u8], len: usize) -> (done: Dispatched)
        ensures
            exists|accepted: bool|
                {
                    &&& final(self)@ == #[trigger] registry_after_read(
                        old(self)@,
                        buf@,
                        len as nat,
                        accepted,
                    )
                    &&& done.delivery == delivery_of(old(self)@, buf@, len as nat, accepted)
                    &&& gone_view(done.gone) == gone_after_read(
                        old(self)@,
                        buf@,
                        len as nat,
                        accepted,
                    )
                },
            done.delivery is Kept ==> final(self)@ == registry_after_read(
                old(self)@,
                buf@,
                len as nat,
                true,
            ),
    {
        if len == 0 || buf.len() < 2 {
            assert(self@ == registry_after_read(old(self)@, buf@, len as nat, true));
            return Dispatched { delivery: Delivery::Ignored, gone: None };
        }
        let key: u8 = buf[1];
        match self.subscribes.remove(&key) {
            None => {
                assert(self@ =~= old(self)@);
                assert(self@ == registry_after_read(old(self)@, buf@, len as nat, true));
                Dispatched { delivery: Delivery::Unclaimed, gone: None }
            },
            Some(subscription) => {
                let mut subscription = subscription;
                let ghost before = subscription@;
                let ghost msg = OutMessageView::Response(payload_of(buf@));
                assert(old(self)@[key] == before);
                let dispose = subscription.send(OutMessage::Response(frame_payload(buf)));
                let ghost accepted = choose|accepted: bool|
                    subscription@ == #[trigger] before.after_send(msg, accepted) && dispose
                        == before.ends_with(msg, accepted);
                if dispose {
                    assert(self@ =~= old(self)@.remove(key));
                    assert(self@ == registry_after_read(old(self)@, buf@, len as nat, accepted));
                    Dispatched { delivery: Delivery::Disposed, gone: Some(subscription) }
                } else {
                    let ghost after = subscription@;
                    let _ = self.subscribes.insert(key, subscription);
                    assert(self@ =~= old(self)@.insert(key, after));
                    assert(self@ == registry_after_read(old(self)@, buf@, len as nat, true));
                    Dispatched { delivery: Delivery::Kept, gone: None }
                }
            },
        }
    }

    /// Tells every subscriber that the device is gone, once each, and
    /// empties the registry. A subscriber whose channel is full or closed
    /// is passed over. Returns the subscribers that were told, by ascending
    /// key; they end when the caller drops them.
    pub fn disconnect_all(&mut self) -> (told: Vec<Told>)
        ensures
            final(self)@ == Map::<u8, SubscriptionView>::empty(),
            told_once(old(self)@, told_views(told@)),
    {
        let mut told: Vec<Told> = Vec::new();
        let mut next: usize = 0;
        assert(told_keys(told_views(told@)) =~= keys_below(old(self)@.dom(), 0));
        while next < 256
            invariant
                next <= 256,
                told_keys(told_views(told@)) == keys_below(old(self)@.dom(), next as int),
                forall|i: int|
                    0 <= i < told@.len() ==> old(self)@.contains_key(
                        (#[trigger] told_views(told@)[i]).0,
                    ) && noticed(old(self)@[told_views(told@)[i].0], told_views(told@)[i].1),
                forall|key: u8| key < next ==> !self@.contains_key(key),
                forall|key: u8|
                    key >= next ==> #[trigger] self@.contains_key(key) == old(self)@.contains_key(
                        key,
                    ),
                forall|key: u8|
                    key >= next && #[trigger] self@.contains_key(key) ==> self@[key] == old(
                        self,
                    )@[key],
            decreases 256 - next,
        {
            let key: u8 = next as u8;
            let ghost current = self@;
            let ghost so_far = told_views(told@);
            match self.subscribes.remove(&key) {
                Some(subscription) => {
                    let mut subscription = subscription;
                    let ghost before = subscription@;
                    assert(current.contains_key(key) && current[key] == before);
                    assert(old(self)@.dom().contains(key));
                    assert(old(self)@[key] == before);
                    subscription.send_no_check(OutMessage::DeviceDisconnect);
                    let ghost after = subscription@;
                    assert(noticed(before, after)) by {
                        let accepted = choose|accepted: bool|
                            after == #[trigger] before.after_notice(
                                OutMessageView::DeviceDisconnect,
                                accepted,
                            );
                        if accepted {
                        } else {
                        }
                    }
                    told.push(Told { key, subscription });
                    assert(told_views(told@) =~= so_far.push((key, after)));
                    assert(told_keys(told_views(told@)) =~= told_keys(so_far).push(key));
                },
                None => {
                    assert(!current.contains_key(key));
                    assert(!old(self)@.dom().contains(key));
                },
            }
            assert(keys_below(old(self)@.dom(), next + 1) == if old(self)@.dom().contains(key) {
                keys_below(old(self)@.dom(), next as int).push(key)
            } else {
                keys_below(old(self)@.dom(), next as int)
            });
            assert(self@ =~= current.remove(key));
            assert forall|other: u8| other >= next + 1 implies #[trigger] self@.contains_key(other)
                == old(self)@.contains_key(other) by {
                assert(current.contains_key(other) == old(self)@.contains_key(other));
            }
            assert forall|other: u8|
                other >= next + 1 && #[trigger] self@.contains_key(other) implies self@[other]
                == old(self)@[other] by {
                assert(current.contains_key(other));
            }
            next += 1;
        }
        assert(self@ =~= Map::<u8, SubscriptionView>::empty());
        told
    }
}

/// What serving one request gave.
pub struct Accepted {
    /// The frame to write, if the request has one.
    pub write: Option<Vec<u8>>,
    /// The subscriber that the request took out of the registry, as it
    /// stood, if it took one.
    pub displaced: Option<Subscription>,
}

/// What serving one read gave.
pub struct Dispatched {
    /// What became of the frame.
    pub delivery: Delivery,
    /// The subscriber that the delivery ended, if it ended one.
    pub gone: Option<Subscription>,
}

/// A subscriber that was told that the device is gone.
pub struct Told {
    /// The key that it was registered under.
    pub key: u8,
    /// The subscription, with the notice in its record if its channel took
    /// the notice.
    pub subscription: Subscription,
}

/// Mathematical content of a list of [`Told`].
pub open spec fn told_views(told: Seq<Told>) -> Seq<(u8, SubscriptionView)> {
    Seq::new(told.len(), |i: int| (told[i].key, told[i].subscription@))
}

/// The keys of a list of told subscribers.
pub open spec fn told_keys(told: Seq<(u8, SubscriptionView)>) -> Seq<u8> {
    Seq::new(told.len(), |i: int| told[i].0)
}

/// `after` is `before` with one disconnect notice offered to its channel:
/// the notice is the last in its record if the channel took it, and
/// nothing else has changed.
pub open spec fn noticed(before: SubscriptionView, after: SubscriptionView) -> bool {
    after == before.after_notice(OutMessageView::DeviceDisconnect, true) || after
        == before.after_notice(OutMessageView::DeviceDisconnect, false)
}

/// A subscriber that was offered the notice holds at most that one message
/// more, and no payload: its record is as before, or as before with the
/// notice behind it, and it has counted nothing.
pub proof fn lemma_notice_is_one_disconnect(before: SubscriptionView, after: SubscriptionView)
    requires
        noticed(before, after),
    ensures
        after.policy == before.policy,
        after.count == before.count,
        after.handed == before.handed || after.handed == before.handed.push(
            OutMessageView::DeviceDisconnect,
        ),
{
}

/// Every subscriber of `registry` was told once that the device is gone:
/// `told` lists each key of the registry once, in ascending order, and
/// with each key the subscriber that was registered under it, offered the
/// notice once.
pub open spec fn told_once(
    registry: Map<u8, SubscriptionView>,
    told: Seq<(u8, SubscriptionView)>,
) -> bool {
    &&& told_keys(told) == ascending_keys(registry.dom())
    &&& forall|i: int|
        0 <= i < told.len() ==> registry.contains_key((#[trigger] told[i]).0) && noticed(
            registry[told[i].0],
            told[i].1,
        )
}

/// The fan-out reaches everyone once: when every subscriber of a registry
/// of N subscribers was told, N subscribers were told, no key was told
/// twice, and every key of the registry is among them.
pub proof fn lemma_fan_out_reaches_each_once(
    registry: Map<u8, SubscriptionView>,
    told: Seq<(u8, SubscriptionView)>,
)
    requires
        told_once(registry, told),
    ensures
        registry.dom().finite(),
        told.len() == registry.dom().len(),
        forall|i: int, j: int| 0 <= i < j < told.len() ==> told[i].0 != told[j].0,
        forall|key: u8|
            registry.contains_key(key) ==> exists|i: int|
                0 <= i < told.len() && (#[trigger] told[i]).0 == key,
{
    let keys = told_keys(told);
    lemma_ascending_keys(registry.dom());
    lemma_keys_below(registry.dom(), 256);
    assert forall|i: int, j: int| 0 <= i < j < told.len() implies told[i].0 != told[j].0 by {
        assert(keys[i] < keys[j]);
    }
    assert forall|key: u8| registry.contains_key(key) implies exists|i: int|
        0 <= i < told.len() && (#[trigger] told[i]).0 == key by {
        assert(keys.contains(key));
        let i = choose|i: int| 0 <= i < keys.len() && keys[i] == key;
        assert(told[i].0 == key);
    }
}

/// What polling the queue of outbound requests gave.
pub enum Polled {
    /// The next request.
    Request(InMessage),
    /// Nothing is waiting.
    Empty,
    /// Nothing is waiting and no sender is left.
    Closed,
}

/// Mathematical content of a [`Polled`].
pub enum PolledView {
    Request(InMessageView),
    Empty,
    Closed,
}

impl View for Polled {
    type V = PolledView;

    open spec fn view(&self) -> PolledView {
        match self {
            Polled::Request(msg) => PolledView::Request(msg@),
            Polled::Empty => PolledView::Empty,
            Polled::Closed => PolledView::Closed,
        }
    }
}

/// What the worker does next.
#[derive(Debug)]
pub enum Step {
    /// Write this frame to the device, report the result with
    /// [`Registry::on_written`], then poll the queue again.
    Write(Vec<u8>),
    /// Poll the queue again.
    Poll,
    /// Read once from the device, waiting at most [`READ_TIMEOUT_MS`],
    /// report the result with [`Registry::on_read`], then poll the queue
    /// again.
    Read,
    /// Release the device and end.
    Stop,
}

/// Mathematical content of a [`Step`].
pub enum StepView {
    Write(Seq<u8>),
    Poll,
    Read,
    Stop,
}

impl View for Step {
    type V = StepView;

    open spec fn view(&self) -> StepView {
        match self {
            Step::Write(data) => StepView::Write(data@),
            Step::Poll => StepView::Poll,
            Step::Read => StepView::Read,
            Step::Stop => StepView::Stop,
        }
    }
}

/// A poll result that the worker can serve.
pub open spec fn serviceable_poll(polled: PolledView) -> bool {
    polled matches PolledView::Request(msg) ==> serviceable(msg)
}

/// The step that follows a poll: a request is served, and written if it
/// has a frame; the read is due when the queue is empty; the worker ends
/// when the queue is closed.
pub open spec fn step_after(polled: PolledView) -> StepView {
    match polled {
        PolledView::Request(msg) => match frame_of_request(msg) {
            Some(data) => StepView::Write(data),
            None => StepView::Poll,
        },
        PolledView::Empty => StepView::Read,
        PolledView::Closed => StepView::Stop,
    }
}

/// The registry after a poll.
pub open spec fn registry_after_poll(
    registry: Map<u8, SubscriptionView>,
    polled: PolledView,
) -> Map<u8, SubscriptionView> {
    match polled {
        PolledView::Request(msg) => registry_after_request(registry, msg),
        PolledView::Empty => registry,
        PolledView::Closed => registry,
    }
}

/// The polls of one drain phase that finds the requests of `queue`
/// waiting, in this order, and then finds the queue empty.
pub open spec fn polls_of(queue: Seq<InMessageView>) -> Seq<PolledView> {
    Seq::new(
        queue.len() + 1,
        |i: int|
            if i < queue.len() {
                PolledView::Request(queue[i])
            } else {
                PolledView::Empty
            },
    )
}

/// The steps that answer a run of polls, one for one.
pub open spec fn steps_of(polls: Seq<PolledView>) -> Seq<StepView> {
    Seq::new(polls.len(), |i: int| step_after(polls[i]))
}

/// The frames that a run of steps writes, in their order.
pub open spec fn writes_in(steps: Seq<StepView>) -> Seq<Seq<u8>>
    decreases steps.len(),
{
    if steps.len() == 0 {
        Seq::empty()
    } else {
        match steps.last() {
            StepView::Write(data) => writes_in(steps.drop_last()).push(data),
            _ => writes_in(steps.drop_last()),
        }
    }
}

/// The frames that the requests of `queue` ask to write, in their order.
pub open spec fn frames_in(queue: Seq<InMessageView>) -> Seq<Seq<u8>>
    decreases queue.len(),
{
    if queue.len() == 0 {
        Seq::empty()
    } else {
        match frame_of_request(queue.last()) {
            Some(data) => frames_in(queue.drop_last()).push(data),
            None => frames_in(queue.drop_last()),
        }
    }
}

/// Whatever the polls of the queue give, in whatever order: a read is due
/// exactly after a poll that found the queue empty, and the worker ends
/// exactly after a poll that found it closed.
pub proof fn lemma_read_only_when_drained(polls: Seq<PolledView>, i: int)
    requires
        0 <= i < polls.len(),
    ensures
        steps_of(polls)[i] is Read <==> polls[i] is Empty,
        steps_of(polls)[i] is Stop <==> polls[i] is Closed,
{
}

/// Writes come before the read: with the requests of `queue` waiting, the
/// worker takes one step for each of them, none of which is a read, writes
/// their frames in the order of the queue, and only then reads.
pub proof fn lemma_writes_precede_read(queue: Seq<InMessageView>)
    ensures
        steps_of(polls_of(queue)).len() == queue.len() + 1,
        steps_of(polls_of(queue)).last() is Read,
        forall|i: int|
            0 <= i < queue.len() ==> !(#[trigger] steps_of(polls_of(queue))[i] is Read)
                && !(steps_of(polls_of(queue))[i] is Stop),
        writes_in(steps_of(polls_of(queue))) == frames_in(queue),
{
    let steps = steps_of(polls_of(queue));
    assert(writes_in(steps.drop_last()) == frames_in(queue)) by {
        lemma_writes_of_requests(queue);
        assert(steps.drop_last() =~= Seq::new(
            queue.len(),
            |i: int| step_after(PolledView::Request(queue[i])),
        ));
    }
}

/// The steps that serve the requests of `queue` write their frames in the
/// order of the queue.
proof fn lemma_writes_of_requests(queue: Seq<InMessageView>)
    ensures
        writes_in(Seq::new(queue.len(), |i: int| step_after(PolledView::Request(queue[i]))))
            == frames_in(queue),
    decreases queue.len(),
{
    let steps = Seq::new(queue.len(), |i: int| step_after(PolledView::Request(queue[i])));
    if queue.len() > 0 {
        let shorter = queue.drop_last();
        lemma_writes_of_requests(shorter);
        assert(steps.drop_last() =~= Seq::new(
            shorter.len(),
            |i: int| step_after(PolledView::Request(shorter[i])),
        ));
    }
}

impl Polled {
    /// Whether the worker can serve this poll result.
    pub fn is_serviceable(&self) -> (ok: bool)
        ensures
            ok == serviceable_poll(self@),
    {
        match self {
            Polled::Request(InMessage::SendPacketAndSubscribe(data, _)) => data.len() >= 2,
            _ => true,
        }
    }
}

impl Registry {
    /// Decides the step after a poll of the queue, and serves the request
    /// that the poll gave, if it gave one.
    pub fn on_polled(&mut self, polled: Polled) -> (served: Served)
        requires
            serviceable_poll(polled@),
        ensures
            served.step@ == step_after(polled@),
            final(self)@ == registry_after_poll(old(self)@, polled@),
            gone_view(served.displaced) == displaced_by_poll(old(self)@, polled@),
    {
        match polled {
            Polled::Request(msg) => {
                let accepted = self.accept(msg);
                let step = match accepted.write {
                    Some(data) => Step::Write(data),
                    None => Step::Poll,
                };
                Served { step, displaced: accepted.displaced }
            },
            Polled::Empty => Served { step: Step::Read, displaced: None },
            Polled::Closed => Served { step: Step::Stop, displaced: None },
        }
    }

    /// Takes the result of a write: the number of bytes written, or nothing
    /// when the write failed. A failed write is told to every subscriber
    /// and empties the registry. Either way the worker polls the queue
    /// next: a failure does not end it.
    pub fn on_written(&mut self, written: Option<usize>) -> (done: Written)
        ensures
            written is Some ==> final(self)@ == old(self)@ && done.told@.len() == 0,
            written is None ==> final(self)@ == Map::<u8, SubscriptionView>::empty() && told_once(
                old(self)@,
                told_views(done.told@),
            ),
            done.next@ == StepView::Poll,
    {
        let told = match written {
            Some(_) => Vec::new(),
            None => self.disconnect_all(),
        };
        Written { told, next: Step::Poll }
    }

    /// Takes the result of a read into `buf`: the number of bytes read, or
    /// nothing when the read failed. What was read is dispatched; a failed
    /// read is told to every subscriber and empties the registry. Either
    /// way the worker polls the queue next: a failure does not end it.
    pub fn on_read(&mut self, buf: &[u8], read: Option<usize>) -> (done: ReadDone)
        ensures
            match read {
                Some(len) => exists|accepted: bool|
                    {
                        &&& final(self)@ == #[trigger] registry_after_read(
                            old(self)@,
                            buf@,
                            len as nat,
                            accepted,
                        )
                        &&& done.outcome@ == ReadOutcomeView::Dispatched(
                            delivery_of(old(self)@, buf@, len as nat, accepted),
                            gone_after_read(old(self)@, buf@, len as nat, accepted),
                        )
                    },
                None => final(self)@ == Map::<u8, SubscriptionView>::empty() && (
                done.outcome@ matches ReadOutcomeView::Disconnected(told) && told_once(
                    old(self)@,
                    told,
                )),
            },
            done.next@ == StepView::Poll,
    {
        let outcome = match read {
            Some(len) => ReadOutcome::Dispatched(self.dispatch(buf, len)),
            None => ReadOutcome::Disconnected(self.disconnect_all()),
        };
        ReadDone { outcome, next: Step::Poll }
    }
}

/// The subscriber that a poll takes out of the registry.
pub open spec fn displaced_by_poll(
    registry: Map<u8, SubscriptionView>,
    polled: PolledView,
) -> Option<SubscriptionView> {
    match polled {
        PolledView::Request(msg) => displaced_by_request(registry, msg),
        PolledView::Empty => None,
        PolledView::Closed => None,
    }
}

/// What serving one poll gave.
pub struct Served {
    /// What the worker does next.
    pub step: Step,
    /// The subscriber that the request took out of the registry, as it
    /// stood, if it took one.
    pub displaced: Option<Subscription>,
}

/// What taking the result of a write gave.
pub struct Written {
    /// The subscribers that were told of a failure.
    pub told: Vec<Told>,
    /// What the worker does next.
    pub next: Step,
}

/// What taking the result of a read gave.
pub struct ReadDone {
    /// What was done with the result.
    pub outcome: ReadOutcome,
    /// What the worker does next.
    pub next: Step,
}

/// What the worker did with the result of a read.
pub enum ReadOutcome {
    /// The read succeeded; this became of the frame.
    Dispatched(Dispatched),
    /// The read failed; these subscribers were told.
    Disconnected(Vec<Told>),
}

/// Mathematical content of a [`ReadOutcome`].
pub enum ReadOutcomeView {
    Dispatched(Delivery, Option<SubscriptionView>),
    Disconnected(Seq<(u8, SubscriptionView)>),
}

impl View for ReadOutcome {
    type V = ReadOutcomeView;

    open spec fn view(&self) -> ReadOutcomeView {
        match self {
            ReadOutcome::Dispatched(done) => ReadOutcomeView::Dispatched(
                done.delivery,
                gone_view(done.gone),
            ),
            ReadOutcome::Disconnected(told) => ReadOutcomeView::Disconnected(told_views(told@)),
        }
    }
}

} // verus!
