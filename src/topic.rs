use vstd::prelude::*;

verus! {

/// How many undelivered messages a subscriber may have outstanding before the
/// oldest of them is dropped.
pub const TOPIC_CAPACITY: usize = 15;

/// What one receive on a subscriber handle yields.
#[derive(Debug, PartialEq, Eq)]
pub enum Received {
    /// The next message in publish order.
    Message(String),
    /// The subscriber fell behind and this many messages were dropped for it;
    /// its cursor now stands at the oldest message still held.
    Lagged(u64),
    /// Nothing new has been published since the last receive.
    Empty,
    /// The topic is gone, or the handle is no longer attached.
    Closed,
}

/// The mathematical form of [`Received`].
pub enum Delivery {
    Message(Seq<char>),
    Lagged(nat),
    Empty,
    Closed,
}

impl View for Received {
    type V = Delivery;

    open spec fn view(&self) -> Delivery {
        match self {
            Received::Message(m) => Delivery::Message(m@),
            Received::Lagged(n) => Delivery::Lagged(*n as nat),
            Received::Empty => Delivery::Empty,
            Received::Closed => Delivery::Closed,
        }
    }
}

/// Names one subscriber of a topic: the cursor slot it holds, and the
/// generation of that slot when it was taken. A slot freed by one subscriber
/// may be taken again by a later one, under the next generation.
#[derive(Clone, Copy, Debug, PartialEq, Eq, Structural)]
pub struct Slot {
    pub index: usize,
    pub generation: u64,
}

/// The abstract state of a topic: every message ever published, the sequence
/// number of the oldest one still held, one read cursor per slot (`None` while
/// the slot is free), and each slot's generation.
pub struct TopicView {
    pub history: Seq<Seq<char>>,
    pub start: nat,
    pub cursors: Seq<Option<u64>>,
    pub gens: Seq<u64>,
}

impl TopicView {
    /// Sequence number that the next published message will get.
    pub open spec fn end(self) -> nat {
        self.history.len()
    }

    /// The messages still held, oldest first.
    pub open spec fn retained(self) -> Seq<Seq<char>> {
        self.history.subrange(self.start as int, self.history.len() as int)
    }

    /// Slot `s` is taken by some subscriber.
    pub open spec fn attached(self, s: int) -> bool {
        0 <= s < self.cursors.len() && self.cursors[s] is Some
    }

    /// The subscriber named by `s` is still attached: its slot is taken, and
    /// under the generation it was given.
    pub open spec fn holds(self, s: Slot) -> bool {
        self.attached(s.index as int) && self.gens[s.index as int] == s.generation
    }

    /// Slot `i` is free and can be handed out once more.
    pub open spec fn reusable(self, i: int) -> bool {
        0 <= i < self.cursors.len() && self.cursors[i] is None && self.gens[i] < u64::MAX
    }

    pub open spec fn cursor(self, s: int) -> nat {
        self.cursors[s].unwrap() as nat
    }

    pub open spec fn wf(self) -> bool {
        &&& self.start <= self.end()
        &&& self.end() - self.start <= TOPIC_CAPACITY
        &&& self.end() <= u64::MAX
        &&& self.gens.len() == self.cursors.len()
        &&& forall|s: int| #[trigger] self.attached(s) ==> self.cursor(s) <= self.end()
    }
}

/// The subscriber that takes slot `i`: a new slot starts at generation 0, a
/// reused one at the next generation.
pub open spec fn slot_taken(v: TopicView, i: int) -> Slot {
    Slot {
        index: i as usize,
        generation: if i == v.cursors.len() {
            0
        } else {
            (v.gens[i] + 1) as u64
        },
    }
}

/// A new subscriber takes slot `i` (a free one, or a new one at the end) and
/// starts at "now": it sees nothing published before it attached.
pub open spec fn subscribe_spec(v: TopicView, i: int) -> TopicView {
    if i == v.cursors.len() {
        TopicView {
            cursors: v.cursors.push(Some(v.end() as u64)),
            gens: v.gens.push(0),
            ..v
        }
    } else {
        TopicView {
            cursors: v.cursors.update(i, Some(v.end() as u64)),
            gens: v.gens.update(i, (v.gens[i] + 1) as u64),
            ..v
        }
    }
}

/// Publishing appends to the history; when a full window would overflow, the
/// oldest held message is dropped. Cursors are untouched: publish never waits.
pub open spec fn publish_spec(v: TopicView, m: Seq<char>) -> TopicView {
    TopicView {
        history: v.history.push(m),
        start: if v.end() - v.start == TOPIC_CAPACITY {
            v.start + 1
        } else {
            v.start
        },
        ..v
    }
}

/// Publishing several messages in turn.
pub open spec fn publish_all(v: TopicView, ms: Seq<Seq<char>>) -> TopicView
    decreases ms.len(),
{
    if ms.len() == 0 {
        v
    } else {
        publish_spec(publish_all(v, ms.drop_last()), ms.last())
    }
}

/// Detaching frees the subscriber's slot and drops its cursor; a subscriber
/// no longer attached changes nothing.
pub open spec fn unsubscribe_spec(v: TopicView, s: Slot) -> TopicView {
    if v.holds(s) {
        TopicView { cursors: v.cursors.update(s.index as int, None), ..v }
    } else {
        v
    }
}

/// What a receive by subscriber `sl` yields.
pub open spec fn recv_result(v: TopicView, sl: Slot) -> Delivery {
    let s = sl.index as int;
    if !v.holds(sl) {
        Delivery::Closed
    } else if v.cursor(s) < v.start {
        Delivery::Lagged((v.start - v.cursor(s)) as nat)
    } else if v.cursor(s) == v.end() {
        Delivery::Empty
    } else {
        Delivery::Message(v.history[v.cursor(s) as int])
    }
}

/// The state after a receive by subscriber `sl`.
pub open spec fn recv_state(v: TopicView, sl: Slot) -> TopicView {
    let s = sl.index as int;
    if !v.holds(sl) {
        v
    } else if v.cursor(s) < v.start {
        TopicView { cursors: v.cursors.update(s, Some(v.start as u64)), ..v }
    } else if v.cursor(s) == v.end() {
        v
    } else {
        TopicView { cursors: v.cursors.update(s, Some((v.cursor(s) + 1) as u64)), ..v }
    }
}

/// A bounded fan-out queue: one ordered log of recent messages shared by all
/// subscribers, each reading it through its own cursor.
pub struct Topic {
    buffer: Vec<String>,
    start: u64,
    cursors: Vec<Option<u64>>,
    gens: Vec<u64>,
    history: Ghost<Seq<Seq<char>>>,
}

impl View for Topic {
    type V = TopicView;

    closed spec fn view(&self) -> TopicView {
        TopicView {
            history: self.history@,
            start: self.start as nat,
            cursors: self.cursors@,
            gens: self.gens@,
        }
    }
}

impl Topic {
    pub closed spec fn wf(&self) -> bool {
        &&& self@.wf()
        &&& self.buffer@.len() == self@.end() - self@.start
        &&& forall|i: int|
            0 <= i < self.buffer@.len() ==> #[trigger] self.buffer@[i]@ == self.history@[self.start
                + i]
    }

    /// A well-formed topic has a well-formed view.
    pub proof fn lemma_view_wf(&self)
        requires
            self.wf(),
        ensures
            self@.wf(),
    {
    }

    /// A topic with no subscribers and nothing published.
    pub fn new() -> (t: Topic)
        ensures
            t.wf(),
            t@.history == Seq::<Seq<char>>::empty(),
            t@.start == 0,
            t@.cursors == Seq::<Option<u64>>::empty(),
            t@.gens == Seq::<u64>::empty(),
    {
        Topic {
            buffer: Vec::new(),
            start: 0,
            cursors: Vec::new(),
            gens: Vec::new(),
            history: Ghost(Seq::empty()),
        }
    }

    /// How many messages have been published on this topic so far.
    pub fn sent_count(&self) -> (r: u64)
        requires
            self.wf(),
        ensures
            r as nat == self@.end(),
    {
        self.start + self.buffer.len() as u64
    }

    /// Number of cursor slots, taken or free.
    pub fn slot_count(&self) -> (r: usize)
        ensures
            r == self@.cursors.len(),
    {
        self.cursors.len()
    }

    /// Attaches a new subscriber whose cursor starts at "now". It takes the
    /// first free slot that can be reused, and a new slot only when none can:
    /// the slots never outnumber the most subscribers attached at once by more
    /// than the slots whose generations are used up.
    pub fn subscribe(&mut self) -> (s: Slot)
        requires
            old(self).wf(),
        ensures
            final(self).wf(),
            s.index == old(self)@.cursors.len() || old(self)@.reusable(s.index as int),
            forall|i: int| 0 <= i < s.index ==> !#[trigger] old(self)@.reusable(i),
            s == slot_taken(old(self)@, s.index as int),
            final(self)@ == subscribe_spec(old(self)@, s.index as int),
            final(self)@.holds(s),
    {
        let end = self.start + self.buffer.len() as u64;
        let mut i: usize = 0;
        while i < self.cursors.len()
            invariant
                self == old(self),
                self.wf(),
                i <= self.cursors.len(),
                end as nat == self@.end(),
                forall|k: int| 0 <= k < i ==> !#[trigger] self@.reusable(k),
            decreases self.cursors.len() - i,
        {
            if self.cursors[i].is_none() && self.gens[i] < u64::MAX {
                let g = self.gens[i] + 1;
                self.cursors.set(i, Some(end));
                self.gens.set(i, g);
                proof {
                    assert(self@.cursors =~= old(self)@.cursors.update(i as int, Some(end)));
                    assert forall|k: int| #[trigger] self@.attached(k) implies self@.cursor(k)
                        <= self@.end() by {
                        if k != i as int {
                            assert(old(self)@.attached(k));
                        }
                    }
                }
                return Slot { index: i, generation: g };
            }
            i = i + 1;
        }
        let s = self.cursors.len();
        self.cursors.push(Some(end));
        self.gens.push(0);
        proof {
            assert forall|k: int| #[trigger] self@.attached(k) implies self@.cursor(k) <= self@.end() by {
                if k < s as int {
                    assert(old(self)@.attached(k));
                }
            }
        }
        Slot { index: s, generation: 0 }
    }

    /// Detaches subscriber `s`; its slot becomes free and what it had not yet
    /// read is released with it.
    pub fn unsubscribe(&mut self, s: Slot)
        requires
            old(self).wf(),
        ensures
            final(self).wf(),
            final(self)@ == unsubscribe_spec(old(self)@, s),
    {
        if s.index < self.cursors.len() && self.cursors[s.index].is_some() && self.gens[s.index]
            == s.generation {
            self.cursors.set(s.index, None);
            proof {
                assert forall|k: int| #[trigger] self@.attached(k) implies self@.cursor(k) <= self@.end() by {
                    assert(old(self)@.attached(k));
                }
            }
        }
    }

    /// Appends `m` for every attached subscriber. Never waits and never fails:
    /// with nobody attached the message is simply dropped from view.
    pub fn publish(&mut self, m: String)
        requires
            old(self).wf(),
            old(self)@.end() < u64::MAX,
        ensures
            final(self).wf(),
            final(self)@ == publish_spec(old(self)@, m@),
    {
        let ghost old_v = self@;
        if self.buffer.len() == TOPIC_CAPACITY {
            self.buffer.remove(0);
            self.start = self.start + 1;
        }
        let ghost mv = m@;
        self.buffer.push(m);
        self.history = Ghost(self.history@.push(mv));
        proof {
            assert forall|i: int| 0 <= i < self.buffer@.len() implies #[trigger] self.buffer@[i]@
                == self.history@[self.start + i] by {
                if i < self.buffer@.len() - 1 {
                    if old_v.end() - old_v.start == TOPIC_CAPACITY {
                        assert(old(self).buffer@[i + 1]@ == old_v.history[old_v.start + i + 1]);
                    } else {
                        assert(old(self).buffer@[i]@ == old_v.history[old_v.start + i]);
                    }
                }
            }
            assert forall|k: int| #[trigger] self@.attached(k) implies self@.cursor(k) <= self@.end() by {
                assert(old_v.attached(k));
            }
        }
    }

    /// Takes the next delivery for subscriber `sl`: the next message in publish
    /// order, a notice of how many were dropped because the subscriber fell
    /// behind, or word that nothing is pending. A subscriber no longer attached
    /// is closed.
    pub fn recv(&mut self, sl: Slot) -> (r: Received)
        requires
            old(self).wf(),
        ensures
            final(self).wf(),
            r@ == recv_result(old(self)@, sl),
            final(self)@ == recv_state(old(self)@, sl),
    {
        let s = sl.index;
        if s >= self.cursors.len() || self.gens[s] != sl.generation {
            return Received::Closed;
        }
        match self.cursors[s] {
            None => Received::Closed,
            Some(c) => {
                proof {
                    assert(self@.attached(s as int));
                }
                let end = self.start + self.buffer.len() as u64;
                if c < self.start {
                    let missed = self.start - c;
                    self.cursors.set(s, Some(self.start));
                    proof {
                        assert forall|k: int| #[trigger] self@.attached(k) implies self@.cursor(k)
                            <= self@.end() by {
                            if k != s as int {
                                assert(old(self)@.attached(k));
                            }
                        }
                    }
                    Received::Lagged(missed)
                } else if c == end {
                    Received::Empty
                } else {
                    let m = self.buffer[(c - self.start) as usize].clone();
                    self.cursors.set(s, Some(c + 1));
                    proof {
                        assert(old(self).buffer@[(c - old(self).start) as int]@
                            == old(self).history@[c as int]);
                        assert forall|k: int| #[trigger] self@.attached(k) implies self@.cursor(k)
                            <= self@.end() by {
                            if k != s as int {
                                assert(old(self)@.attached(k));
                            }
                        }
                    }
                    Received::Message(m)
                }
            },
        }
    }
}

/// A subscriber that is attached and caught up when `m` is published receives
/// `m` on its next receive, and only once: right after, it is caught up again
/// and a further receive finds nothing until the next publish.
pub proof fn lemma_publish_then_receive_once(v: TopicView, s: Slot, m: Seq<char>)
    requires
        v.wf(),
        v.end() < u64::MAX,
        v.holds(s),
        v.cursor(s.index as int) == v.end(),
    ensures
        publish_spec(v, m).wf(),
        recv_result(publish_spec(v, m), s) == Delivery::Message(m),
        recv_state(publish_spec(v, m), s).wf(),
        recv_result(recv_state(publish_spec(v, m), s), s) == Delivery::Empty,
{
    lemma_publish_wf(v, m);
    let w = publish_spec(v, m);
    assert(w.history[v.end() as int] == m);
    lemma_recv_wf(w, s);
}

/// Every subscriber that has not fallen behind reads the history in publish
/// order, one message per receive: from cursor `c` it gets the message with
/// sequence number `c` and moves to `c + 1`. All such subscribers thus see the
/// same messages in the same order.
pub proof fn lemma_delivery_in_publish_order(v: TopicView, s: Slot)
    requires
        v.wf(),
        v.holds(s),
        v.start <= v.cursor(s.index as int) < v.end(),
    ensures
        recv_result(v, s) == Delivery::Message(v.history[v.cursor(s.index as int) as int]),
        recv_state(v, s).holds(s),
        recv_state(v, s).cursor(s.index as int) == v.cursor(s.index as int) + 1,
        recv_state(v, s).history == v.history,
{
}

/// Publishing is defined on every well-formed topic and keeps it well formed;
/// with no subscriber attached it changes nothing but the history and window.
pub proof fn lemma_publish_wf(v: TopicView, m: Seq<char>)
    requires
        v.wf(),
        v.end() < u64::MAX,
    ensures
        publish_spec(v, m).wf(),
        publish_spec(v, m).cursors == v.cursors,
        publish_spec(v, m).gens == v.gens,
        publish_spec(v, m).history == v.history.push(m),
        publish_spec(v, m).retained().len() <= TOPIC_CAPACITY,
        publish_spec(v, m).start < publish_spec(v, m).end(),
{
    let w = publish_spec(v, m);
    assert forall|k: int| #[trigger] w.attached(k) implies w.cursor(k) <= w.end() by {
        assert(v.attached(k));
    }
}

/// A publish on a topic with no attached subscriber is an ordinary step: it
/// needs nothing of the subscribers and leaves every slot detached.
pub proof fn lemma_publish_without_subscribers(v: TopicView, m: Seq<char>)
    requires
        v.wf(),
        v.end() < u64::MAX,
        forall|s: int| !#[trigger] v.attached(s),
    ensures
        publish_spec(v, m).wf(),
        forall|s: int| !#[trigger] publish_spec(v, m).attached(s),
        publish_spec(v, m).history == v.history.push(m),
{
    lemma_publish_wf(v, m);
    let w = publish_spec(v, m);
    assert forall|s: int| !#[trigger] w.attached(s) by {
        assert(!v.attached(s));
    }
}

/// A receive keeps a topic well formed.
pub proof fn lemma_recv_wf(v: TopicView, s: Slot)
    requires
        v.wf(),
    ensures
        recv_state(v, s).wf(),
        recv_state(v, s).history == v.history,
        recv_state(v, s).start == v.start,
        recv_state(v, s).gens == v.gens,
{
    let w = recv_state(v, s);
    assert forall|k: int| #[trigger] w.attached(k) implies w.cursor(k) <= w.end() by {
        if k != s.index as int {
            assert(v.attached(k));
        }
    }
}

/// Publishing `ms` in turn: the history grows by `ms`, cursors stay, and the
/// window never holds more than the capacity.
pub proof fn lemma_publish_all(v: TopicView, ms: Seq<Seq<char>>)
    requires
        v.wf(),
        v.end() + ms.len() <= u64::MAX,
    ensures
        publish_all(v, ms).wf(),
        publish_all(v, ms).history == v.history + ms,
        publish_all(v, ms).cursors == v.cursors,
        publish_all(v, ms).gens == v.gens,
        publish_all(v, ms).start + TOPIC_CAPACITY >= publish_all(v, ms).end(),
        ms.len() > 0 ==> publish_all(v, ms).start < publish_all(v, ms).end(),
    decreases ms.len(),
{
    if ms.len() == 0 {
        assert(v.history + ms =~= v.history);
    } else {
        lemma_publish_all(v, ms.drop_last());
        lemma_publish_wf(publish_all(v, ms.drop_last()), ms.last());
        assert(v.history + ms.drop_last() + seq![ms.last()] =~= v.history + ms);
        assert((v.history + ms.drop_last()).push(ms.last()) =~= v.history + ms);
    }
}

/// A subscriber that reads nothing while more than the capacity of messages are
/// published falls behind: its next receive reports the overflow, with the count
/// of dropped messages, and moves it to the oldest message still held, which its
/// following receive delivers. The topic holds at most the capacity throughout.
pub proof fn lemma_slow_subscriber_recovers(v: TopicView, s: Slot, ms: Seq<Seq<char>>)
    requires
        v.wf(),
        v.holds(s),
        ms.len() > TOPIC_CAPACITY,
        v.end() + ms.len() <= u64::MAX,
    ensures
        ({
            let w = publish_all(v, ms);
            &&& w.retained().len() <= TOPIC_CAPACITY
            &&& recv_result(w, s) == Delivery::Lagged((w.start - v.cursor(s.index as int)) as nat)
            &&& w.start - v.cursor(s.index as int) > 0
            &&& recv_state(w, s).wf()
            &&& recv_result(recv_state(w, s), s) == Delivery::Message(w.history[w.start as int])
        }),
{
    lemma_publish_all(v, ms);
    let w = publish_all(v, ms);
    assert(w.holds(s));
    lemma_recv_wf(w, s);
}

} // verus!
