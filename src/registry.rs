use std::collections::HashMap;
use vstd::prelude::*;

use crate::topic::{
    publish_spec, recv_result, recv_state, slot_taken, subscribe_spec, unsubscribe_spec, Delivery,
    Received, Slot, Topic, TopicView, TOPIC_CAPACITY,
};

verus! {

broadcast use vstd::std_specs::hash::group_hash_axioms;

/// A live read cursor into one topic. `serial` names the topic instance it was
/// taken from, so a handle never reaches a topic created after its own was removed.
#[derive(Clone, Copy, Debug, PartialEq, Eq, Structural)]
pub struct SubscriberHandle {
    pub channel_id: u128,
    pub serial: u64,
    pub slot: Slot,
}

/// One registered topic, as the registry's view sees it.
pub struct TopicEntry {
    pub serial: u64,
    pub topic: TopicView,
}

/// The abstract state of the registry: the registered topics by channel, and
/// the serial that the next created topic will get.
pub struct RegistryView {
    pub topics: Map<u128, TopicEntry>,
    pub next_serial: nat,
}

impl RegistryView {
    pub open spec fn wf(self) -> bool {
        &&& self.next_serial <= u64::MAX
        &&& forall|c: u128| #[trigger]
            self.topics.contains_key(c) ==> {
                &&& self.topics[c].topic.wf()
                &&& self.topics[c].serial < self.next_serial
            }
    }

    /// The handle still reaches the topic it was taken from.
    pub open spec fn live(self, h: SubscriberHandle) -> bool {
        self.topics.contains_key(h.channel_id) && self.topics[h.channel_id].serial == h.serial
    }
}

/// Registering a channel is idempotent: an existing topic is kept as it is.
pub open spec fn create_spec(v: RegistryView, c: u128) -> RegistryView {
    if v.topics.contains_key(c) {
        v
    } else {
        RegistryView {
            topics: v.topics.insert(
                c,
                TopicEntry {
                    serial: v.next_serial as u64,
                    topic: TopicView {
                        history: Seq::empty(),
                        start: 0,
                        cursors: Seq::empty(),
                        gens: Seq::empty(),
                    },
                },
            ),
            next_serial: v.next_serial + 1,
        }
    }
}

pub open spec fn remove_spec(v: RegistryView, c: u128) -> RegistryView {
    RegistryView { topics: v.topics.remove(c), ..v }
}

/// What a receive through handle `h` yields: closed once its topic is gone.
pub open spec fn registry_recv_result(v: RegistryView, h: SubscriberHandle) -> Delivery {
    if v.live(h) {
        recv_result(v.topics[h.channel_id].topic, h.slot)
    } else {
        Delivery::Closed
    }
}

pub open spec fn registry_recv_state(v: RegistryView, h: SubscriberHandle) -> RegistryView {
    if v.live(h) {
        RegistryView {
            topics: v.topics.insert(
                h.channel_id,
                TopicEntry {
                    serial: h.serial,
                    topic: recv_state(v.topics[h.channel_id].topic, h.slot),
                },
            ),
            ..v
        }
    } else {
        v
    }
}

/// Replaces the topic registered for `c`, keeping its serial.
pub open spec fn update_topic(v: RegistryView, c: u128, t: TopicView) -> RegistryView {
    RegistryView {
        topics: v.topics.insert(c, TopicEntry { serial: v.topics[c].serial, topic: t }),
        ..v
    }
}

/// Every handle on channel `c` is closed once `c`'s topic is removed, and stays
/// closed if a topic for `c` is registered again: a receive through it reports
/// the end of the stream and changes nothing, so the stream ends, not hangs.
pub proof fn lemma_remove_closes_streams(v: RegistryView, c: u128, h: SubscriberHandle)
    requires
        v.wf(),
        h.channel_id == c,
        h.serial < v.next_serial,
    ensures
        registry_recv_result(remove_spec(v, c), h) == Delivery::Closed,
        registry_recv_state(remove_spec(v, c), h) == remove_spec(v, c),
        registry_recv_result(create_spec(remove_spec(v, c), c), h) == Delivery::Closed,
        registry_recv_state(create_spec(remove_spec(v, c), c), h) == create_spec(remove_spec(v, c), c),
{
}

/// Replacing a registered topic by a well-formed one keeps the registry well
/// formed, and every registered topic holds at most the capacity.
pub proof fn lemma_update_wf(v: RegistryView, c: u128, t: TopicView)
    requires
        v.wf(),
        v.topics.contains_key(c),
        t.wf(),
    ensures
        update_topic(v, c, t).wf(),
        update_topic(v, c, t).topics.contains_key(c),
        update_topic(v, c, t).topics[c] == (TopicEntry { serial: v.topics[c].serial, topic: t }),
        update_topic(v, c, t).topics.dom() == v.topics.dom(),
        update_topic(v, c, t).next_serial == v.next_serial,
        t.retained().len() <= TOPIC_CAPACITY,
{
    let w = update_topic(v, c, t);
    assert(w.topics.dom() =~= v.topics.dom());
    assert forall|k: u128| #[trigger] w.topics.contains_key(k) implies {
        &&& w.topics[k].topic.wf()
        &&& w.topics[k].serial < w.next_serial
    } by {
        assert(v.topics.contains_key(k));
    }
}

struct Entry {
    serial: u64,
    topic: Topic,
}

/// The process-wide mapping from channel identifier to its live topic.
pub struct Registry {
    topics: HashMap<u128, Entry>,
    next_serial: u64,
}

impl View for Registry {
    type V = RegistryView;

    closed spec fn view(&self) -> RegistryView {
        RegistryView {
            topics: Map::new(
                |c: u128| self.topics@.contains_key(c),
                |c: u128| TopicEntry { serial: self.topics@[c].serial, topic: self.topics@[c].topic@ },
            ),
            next_serial: self.next_serial as nat,
        }
    }
}

impl Registry {
    pub closed spec fn wf(&self) -> bool {
        &&& self@.wf()
        &&& forall|c: u128| #[trigger] self.topics@.contains_key(c) ==> self.topics@[c].topic.wf()
    }

    /// Putting back, under its own serial, a topic taken out of the map.
    proof fn lemma_reinsert(old_r: &Registry, new_r: &Registry, c: u128, e: Entry)
        requires
            old_r.wf(),
            old_r.topics@.contains_key(c),
            new_r.topics@ == old_r.topics@.remove(c).insert(c, e),
            new_r.next_serial == old_r.next_serial,
            e.serial == old_r.topics@[c].serial,
            e.topic.wf(),
        ensures
            new_r.wf(),
            new_r@ == update_topic(old_r@, c, e.topic@),
    {
        e.topic.lemma_view_wf();
        assert(new_r@.topics =~= update_topic(old_r@, c, e.topic@).topics);
        assert forall|k: u128| #[trigger] new_r.topics@.contains_key(k) implies new_r.topics@[
            k].topic.wf() by {
            if k != c {
                assert(old_r.topics@.contains_key(k));
            }
        }
        assert forall|k: u128| #[trigger] new_r@.topics.contains_key(k) implies {
            &&& new_r@.topics[k].topic.wf()
            &&& new_r@.topics[k].serial < new_r@.next_serial
        } by {
            assert(old_r@.topics.contains_key(k));
        }
    }

    /// A well-formed registry has a well-formed view: every registered topic
    /// holds at most the capacity and its cursors stay within its history.
    pub proof fn lemma_view_wf(&self)
        requires
            self.wf(),
        ensures
            self@.wf(),
    {
    }

    /// An empty registry.
    pub fn new() -> (r: Registry)
        ensures
            r.wf(),
            r@.topics == Map::<u128, TopicEntry>::empty(),
            r@.next_serial == 0,
    {
        let r = Registry { topics: HashMap::new(), next_serial: 0 };
        assert(r@.topics =~= Map::<u128, TopicEntry>::empty());
        r
    }

    /// Whether a topic is registered for `channel`. Lookup only: never creates.
    pub fn contains(&self, channel: u128) -> (r: bool)
        requires
            self.wf(),
        ensures
            r == self@.topics.contains_key(channel),
    {
        self.topics.contains_key(&channel)
    }

    /// How many serials are left to hand out; `create` needs at least one.
    pub fn serials_left(&self) -> (r: u64)
        ensures
            r as nat == u64::MAX - self@.next_serial,
    {
        u64::MAX - self.next_serial
    }

    /// How many messages have been published on `channel`'s topic, if it exists.
    pub fn sent_count(&self, channel: u128) -> (r: Option<u64>)
        requires
            self.wf(),
        ensures
            match r {
                None => !self@.topics.contains_key(channel),
                Some(n) => self@.topics.contains_key(channel) && n as nat
                    == self@.topics[channel].topic.end(),
            },
    {
        match self.topics.get(&channel) {
            None => None,
            Some(e) => {
                assert(self.topics@.contains_key(channel));
                Some(e.topic.sent_count())
            },
        }
    }

    /// Registers a topic for `channel`; a channel already registered keeps its topic.
    pub fn create(&mut self, channel: u128)
        requires
            old(self).wf(),
            old(self)@.next_serial < u64::MAX,
        ensures
            final(self).wf(),
            final(self)@ == create_spec(old(self)@, channel),
    {
        if self.topics.contains_key(&channel) {
            return;
        }
        let e = Entry { serial: self.next_serial, topic: Topic::new() };
        let ghost ge = e;
        self.topics.insert(channel, e);
        self.next_serial = self.next_serial + 1;
        proof {
            assert(self@.topics =~= old(self)@.topics.insert(
                channel,
                TopicEntry { serial: ge.serial, topic: ge.topic@ },
            ));
            assert(ge.topic@.cursors =~= Seq::<Option<u64>>::empty());
            assert(ge.topic@.gens =~= Seq::<u64>::empty());
            ge.topic.lemma_view_wf();
            assert forall|c: u128| #[trigger] self.topics@.contains_key(c) implies self.topics@[
                c].topic.wf() by {
                if c != channel {
                    assert(old(self).topics@.contains_key(c));
                }
            }
            assert forall|c: u128| #[trigger] self@.topics.contains_key(c) implies {
                &&& self@.topics[c].topic.wf()
                &&& self@.topics[c].serial < self@.next_serial
            } by {
                if c != channel {
                    assert(old(self)@.topics.contains_key(c));
                }
            }
        }
    }

    /// Seeds a registry with one topic per channel known at startup; duplicate
    /// identifiers are tolerated.
    pub fn seeded(channels: &Vec<u128>) -> (r: Registry)
        ensures
            r.wf(),
            forall|c: u128| #[trigger] r@.topics.contains_key(c) <==> channels@.contains(c),
            forall|c: u128| #[trigger]
                r@.topics.contains_key(c) ==> r@.topics[c].topic.history.len() == 0
                    && r@.topics[c].topic.cursors.len() == 0,
    {
        let mut r = Registry::new();
        let mut i: usize = 0;
        while i < channels.len()
            invariant
                r.wf(),
                i <= channels.len(),
                r@.next_serial <= i,
                forall|c: u128| #[trigger]
                    r@.topics.contains_key(c) <==> exists|k: int| 0 <= k < i && channels@[k] == c,
                forall|c: u128| #[trigger]
                    r@.topics.contains_key(c) ==> r@.topics[c].topic.history.len() == 0
                        && r@.topics[c].topic.cursors.len() == 0,
            decreases channels.len() - i,
        {
            r.create(channels[i]);
            proof {
                assert forall|c: u128| #[trigger] r@.topics.contains_key(c) <==> exists|k: int|
                    0 <= k < i + 1 && channels@[k] == c by {
                    if c == channels@[i as int] {
                        assert(0 <= i < i + 1 && channels@[i as int] == c);
                    }
                }
            }
            i = i + 1;
        }
        proof {
            assert forall|c: u128| #[trigger] r@.topics.contains_key(c) <==> channels@.contains(c) by {
                if channels@.contains(c) {
                    let k = choose|k: int| 0 <= k < channels@.len() && channels@[k] == c;
                    assert(0 <= k < i && channels@[k] == c);
                }
            }
        }
        r
    }

    /// Unregisters `channel`. Every handle on its topic is closed from then on.
    pub fn remove(&mut self, channel: u128) -> (existed: bool)
        requires
            old(self).wf(),
        ensures
            final(self).wf(),
            final(self)@ == remove_spec(old(self)@, channel),
            existed == old(self)@.topics.contains_key(channel),
    {
        let r = self.topics.remove(&channel);
        proof {
            assert(self@.topics =~= old(self)@.topics.remove(channel));
            assert forall|c: u128| #[trigger] self.topics@.contains_key(c) implies self.topics@[
                c].topic.wf() by {
                assert(old(self).topics@.contains_key(c));
            }
            assert forall|c: u128| #[trigger] self@.topics.contains_key(c) implies {
                &&& self@.topics[c].topic.wf()
                &&& self@.topics[c].serial < self@.next_serial
            } by {
                assert(old(self)@.topics.contains_key(c));
            }
        }
        r.is_some()
    }
    /// Attaches a new subscriber to `channel`'s topic, starting at "now".
    /// `None` when no topic is registered for it.
    pub fn subscribe(&mut self, channel: u128) -> (r: Option<SubscriberHandle>)
        requires
            old(self).wf(),
        ensures
            final(self).wf(),
            match r {
                None => !old(self)@.topics.contains_key(channel) && final(self)@ == old(self)@,
                Some(h) => {
                    &&& old(self)@.topics.contains_key(channel)
                    &&& h.channel_id == channel
                    &&& h.serial == old(self)@.topics[channel].serial
                    &&& h.slot == slot_taken(old(self)@.topics[channel].topic, h.slot.index as int)
                    &&& (h.slot.index == old(self)@.topics[channel].topic.cursors.len()
                        || old(self)@.topics[channel].topic.reusable(h.slot.index as int))
                    &&& final(self)@ == update_topic(
                        old(self)@,
                        channel,
                        subscribe_spec(old(self)@.topics[channel].topic, h.slot.index as int),
                    )
                    &&& final(self)@.live(h)
                },
            },
    {
        match self.topics.remove(&channel) {
            None => {
                assert(self@.topics =~= old(self)@.topics);
                None
            },
            Some(mut e) => {
                let slot = e.topic.subscribe();
                let serial = e.serial;
                let ghost ge = e;
                self.topics.insert(channel, e);
                proof {
                    Registry::lemma_reinsert(old(self), self, channel, ge);
                }
                Some(SubscriberHandle { channel_id: channel, serial, slot })
            },
        }
    }

    /// Publishes `m` on `channel`'s topic. Returns whether a topic was registered;
    /// a topic without subscribers takes the message like any other.
    pub fn publish(&mut self, channel: u128, m: String) -> (found: bool)
        requires
            old(self).wf(),
            old(self)@.topics.contains_key(channel) ==> old(self)@.topics[channel].topic.end()
                < u64::MAX,
        ensures
            final(self).wf(),
            found == old(self)@.topics.contains_key(channel),
            found ==> final(self)@ == update_topic(
                old(self)@,
                channel,
                publish_spec(old(self)@.topics[channel].topic, m@),
            ),
            !found ==> final(self)@ == old(self)@,
    {
        match self.topics.remove(&channel) {
            None => {
                assert(self@.topics =~= old(self)@.topics);
                false
            },
            Some(mut e) => {
                proof {
                    assert(old(self)@.topics.contains_key(channel));
                }
                e.topic.publish(m);
                let ghost ge = e;
                self.topics.insert(channel, e);
                proof {
                    Registry::lemma_reinsert(old(self), self, channel, ge);
                }
                true
            },
        }
    }

    /// Takes the next delivery for handle `h`; `Closed` once its topic is gone.
    pub fn recv(&mut self, h: SubscriberHandle) -> (r: Received)
        requires
            old(self).wf(),
        ensures
            final(self).wf(),
            r@ == registry_recv_result(old(self)@, h),
            final(self)@ == registry_recv_state(old(self)@, h),
    {
        match self.topics.remove(&h.channel_id) {
            None => {
                assert(self@.topics =~= old(self)@.topics);
                Received::Closed
            },
            Some(mut e) => {
                if e.serial != h.serial {
                    let ghost ge = e;
                    self.topics.insert(h.channel_id, e);
                    proof {
                        Registry::lemma_reinsert(old(self), self, h.channel_id, ge);
                        assert(self@.topics =~= old(self)@.topics);
                    }
                    return Received::Closed;
                }
                let r = e.topic.recv(h.slot);
                let ghost ge = e;
                self.topics.insert(h.channel_id, e);
                proof {
                    Registry::lemma_reinsert(old(self), self, h.channel_id, ge);
                }
                r
            },
        }
    }

    /// Releases handle `h`: its slot is detached and what it had not read is freed.
    pub fn unsubscribe(&mut self, h: SubscriberHandle)
        requires
            old(self).wf(),
        ensures
            final(self).wf(),
            old(self)@.live(h) ==> final(self)@ == update_topic(
                old(self)@,
                h.channel_id,
                unsubscribe_spec(old(self)@.topics[h.channel_id].topic, h.slot),
            ),
            !old(self)@.live(h) ==> final(self)@ == old(self)@,
    {
        match self.topics.remove(&h.channel_id) {
            None => {
                assert(self@.topics =~= old(self)@.topics);
            },
            Some(mut e) => {
                if e.serial == h.serial {
                    e.topic.unsubscribe(h.slot);
                }
                let ghost ge = e;
                self.topics.insert(h.channel_id, e);
                proof {
                    Registry::lemma_reinsert(old(self), self, h.channel_id, ge);
                    if old(self).topics@[h.channel_id].serial != h.serial {
                        assert(self@.topics =~= old(self)@.topics);
                    }
                }
            },
        }
    }
}

} // verus!
