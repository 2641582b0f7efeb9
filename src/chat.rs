use vstd::prelude::*;

use crate::http::{is_route, Method, Route};

use crate::permissions::{authorize_channel, channel_access_spec, Denied, Permissions};
use crate::registry::{
    create_spec, lemma_remove_closes_streams, lemma_update_wf, registry_recv_result,
    registry_recv_state, remove_spec, update_topic, Registry, RegistryView, SubscriberHandle,
};
use crate::topic::{
    lemma_delivery_in_publish_order, lemma_publish_all, lemma_publish_without_subscribers, lemma_publish_then_receive_once,
    lemma_publish_wf, lemma_recv_wf, lemma_slow_subscriber_recovers, publish_all, publish_spec, recv_state,
    slot_taken, subscribe_spec, unsubscribe_spec, Delivery, Received, TopicView, TOPIC_CAPACITY,
};

verus! {

/// Why a subscribe or send was refused.
#[derive(Clone, Copy, Debug, PartialEq, Eq, Structural)]
pub enum ChatError {
    /// The user may not use the channel, or the channel does not exist.
    Forbidden(Denied),
    /// No topic is registered for the channel.
    NotFound,
}

/// The body text that reports a refused subscribe or send.
pub open spec fn chat_message(e: ChatError) -> Seq<char> {
    match e {
        ChatError::Forbidden(_) => "You do not have permission or this channel doesn't exist"@,
        ChatError::NotFound => "This channel does not exist"@,
    }
}

impl ChatError {
    /// The body text that reports this error.
    pub fn message(&self) -> (r: &'static str)
        ensures
            r@ == chat_message(*self),
    {
        proof {
            reveal_strlit("You do not have permission or this channel doesn't exist");
            reveal_strlit("This channel does not exist");
        }
        match self {
            ChatError::Forbidden(_) => "You do not have permission or this channel doesn't exist",
            ChatError::NotFound => "This channel does not exist",
        }
    }

    /// The HTTP status that reports this error.
    pub fn status(&self) -> (r: u16)
        ensures
            r == match self {
                ChatError::Forbidden(_) => 403u16,
                ChatError::NotFound => 404u16,
            },
    {
        match self {
            ChatError::Forbidden(_) => 403,
            ChatError::NotFound => 404,
        }
    }
}

/// One event on a client's live stream: the raw text of a message.
#[derive(Clone, Debug, PartialEq, Eq)]
pub struct Event {
    pub data: String,
}

impl Event {
    /// The name under which every event of the stream is sent.
    pub fn name(&self) -> (r: &'static str)
        ensures
            r@ == "message"@,
    {
        proof {
            reveal_strlit("message");
        }
        "message"
    }
}

/// What a streaming session does after one step.
#[derive(Clone, Debug, PartialEq, Eq)]
pub enum StreamStep {
    /// Send this event to the client.
    Forward(Event),
    /// Messages were lost to overflow; nothing is sent and the loop goes on.
    Skip,
    /// Nothing pending: wait for the next publish, disconnect or removal.
    Wait,
    /// The stream is over and the subscriber handle has been released.
    End,
}

/// The step that a delivery leads to.
pub open spec fn step_for(d: Delivery) -> StreamStepView {
    match d {
        Delivery::Message(m) => StreamStepView::Forward(m),
        Delivery::Lagged(_) => StreamStepView::Skip,
        Delivery::Empty => StreamStepView::Wait,
        Delivery::Closed => StreamStepView::End,
    }
}

/// The mathematical form of [`StreamStep`].
pub enum StreamStepView {
    Forward(Seq<char>),
    Skip,
    Wait,
    End,
}

impl View for StreamStep {
    type V = StreamStepView;

    open spec fn view(&self) -> StreamStepView {
        match self {
            StreamStep::Forward(e) => StreamStepView::Forward(e.data@),
            StreamStep::Skip => StreamStepView::Skip,
            StreamStep::Wait => StreamStepView::Wait,
            StreamStep::End => StreamStepView::End,
        }
    }
}

/// The registry after releasing handle `h`.
pub open spec fn release_spec(v: RegistryView, h: SubscriberHandle) -> RegistryView {
    if v.live(h) {
        update_topic(
            v,
            h.channel_id,
            unsubscribe_spec(v.topics[h.channel_id].topic, h.slot),
        )
    } else {
        v
    }
}

/// Opens a subscription on `channel` for a user whose membership row for the
/// channel's server is `access` (`None`: no membership, or no such channel).
pub fn subscribe(registry: &mut Registry, channel: u128, access: Option<Permissions>) -> (r: Result<
    SubscriberHandle,
    ChatError,
>)
    requires
        old(registry).wf(),
    ensures
        final(registry).wf(),
        match channel_access_spec(access) {
            Err(d) => r == Err::<SubscriberHandle, ChatError>(ChatError::Forbidden(d))
                && final(registry)@ == old(registry)@,
            Ok(_) => if !old(registry)@.topics.contains_key(channel) {
                r == Err::<SubscriberHandle, ChatError>(ChatError::NotFound) && final(registry)@
                    == old(registry)@
            } else {
                &&& r is Ok
                &&& r.unwrap().channel_id == channel
                &&& r.unwrap().serial == old(registry)@.topics[channel].serial
                &&& r.unwrap().slot == slot_taken(
                    old(registry)@.topics[channel].topic,
                    r.unwrap().slot.index as int,
                )
                &&& final(registry)@ == update_topic(
                    old(registry)@,
                    channel,
                    subscribe_spec(old(registry)@.topics[channel].topic, r.unwrap().slot.index as int),
                )
            },
        },
{
    match authorize_channel(access) {
        Err(d) => Err(ChatError::Forbidden(d)),
        Ok(()) => match registry.subscribe(channel) {
            None => Err(ChatError::NotFound),
            Some(h) => Ok(h),
        },
    }
}

/// Sends `text` on `channel` for a user whose membership row for the channel's
/// server is `access`. Authorization is checked on every send. A topic with no
/// subscribers takes the message and the send succeeds.
pub fn send(registry: &mut Registry, channel: u128, access: Option<Permissions>, text: String) -> (r:
    Result<(), ChatError>)
    requires
        old(registry).wf(),
        old(registry)@.topics.contains_key(channel) ==> old(registry)@.topics[channel].topic.end()
            < u64::MAX,
    ensures
        final(registry).wf(),
        match channel_access_spec(access) {
            Err(d) => r == Err::<(), ChatError>(ChatError::Forbidden(d)) && final(registry)@
                == old(registry)@,
            Ok(_) => if !old(registry)@.topics.contains_key(channel) {
                r == Err::<(), ChatError>(ChatError::NotFound) && final(registry)@ == old(registry)@
            } else {
                r == Ok::<(), ChatError>(()) && final(registry)@ == update_topic(
                    old(registry)@,
                    channel,
                    publish_spec(old(registry)@.topics[channel].topic, text@),
                )
            },
        },
{
    match authorize_channel(access) {
        Err(d) => Err(ChatError::Forbidden(d)),
        Ok(()) => {
            if registry.publish(channel, text) {
                Ok(())
            } else {
                Err(ChatError::NotFound)
            }
        },
    }
}

/// One turn of a streaming session on handle `h`. A client that has gone away
/// ends the stream and releases the handle; otherwise one receive decides: a
/// message is forwarded as an event, an overflow notice is skipped, nothing
/// pending means wait, and a removed topic ends the stream.
pub fn stream_step(registry: &mut Registry, h: SubscriberHandle, client_connected: bool) -> (r:
    StreamStep)
    requires
        old(registry).wf(),
    ensures
        final(registry).wf(),
        !client_connected ==> r is End && final(registry)@ == release_spec(old(registry)@, h),
        client_connected ==> {
            &&& r@ == step_for(registry_recv_result(old(registry)@, h))
            &&& final(registry)@ == registry_recv_state(old(registry)@, h)
        },
{
    if !client_connected {
        registry.unsubscribe(h);
        return StreamStep::End;
    }
    match registry.recv(h) {
        Received::Message(m) => StreamStep::Forward(Event { data: m }),
        Received::Lagged(_) => StreamStep::Skip,
        Received::Empty => StreamStep::Wait,
        Received::Closed => StreamStep::End,
    }
}

/// Deleting a channel ends every streaming session attached to its topic: the
/// next step of each, for a client still connected, is `End`, and it stays so
/// if a channel with the same identifier is created again.
pub proof fn lemma_deleted_channel_ends_sessions(v: RegistryView, c: u128, h: SubscriberHandle)
    requires
        v.wf(),
        h.channel_id == c,
        h.serial < v.next_serial,
    ensures
        step_for(registry_recv_result(remove_spec(v, c), h)) == StreamStepView::End,
        step_for(registry_recv_result(create_spec(remove_spec(v, c), c), h)) == StreamStepView::End,
{
    lemma_remove_closes_streams(v, c, h);
}

/// The endpoints of the chat stream, in the order they are mounted.
pub fn routes() -> (r: Vec<Route>)
    ensures
        r@.len() == 2,
        is_route(r@[0], Method::Get, "/subscribe"@),
        is_route(r@[1], Method::Post, "/send"@),
{
    proof {
        reveal_strlit("/subscribe");
        reveal_strlit("/send");
    }
    let mut r: Vec<Route> = Vec::new();
    r.push(Route { method: Method::Get, path: "/subscribe" });
    r.push(Route { method: Method::Post, path: "/send" });
    r
}

/// The topic that handle `h` reads in registry state `v`.
pub open spec fn topic_of(v: RegistryView, h: SubscriberHandle) -> TopicView {
    v.topics[h.channel_id].topic
}

/// The session on `h` is attached and has read everything published so far.
pub open spec fn caught_up(v: RegistryView, h: SubscriberHandle) -> bool {
    &&& v.live(h)
    &&& topic_of(v, h).holds(h.slot)
    &&& topic_of(v, h).cursor(h.slot.index as int) == topic_of(v, h).end()
}

/// A session attached before a send on its channel forwards that message on
/// its next step, and only once: the step after finds nothing to forward.
pub proof fn lemma_session_receives_send_once(v: RegistryView, h: SubscriberHandle, m: Seq<char>)
    requires
        v.wf(),
        caught_up(v, h),
        topic_of(v, h).end() < u64::MAX,
    ensures
        ({
            let w = update_topic(v, h.channel_id, publish_spec(topic_of(v, h), m));
            &&& w.wf()
            &&& step_for(registry_recv_result(w, h)) == StreamStepView::Forward(m)
            &&& registry_recv_state(w, h).wf()
            &&& caught_up(registry_recv_state(w, h), h)
            &&& step_for(registry_recv_result(registry_recv_state(w, h), h)) == StreamStepView::Wait
        }),
{
    let t = topic_of(v, h);
    lemma_publish_then_receive_once(t, h.slot, m);
    lemma_publish_wf(t, m);
    let w = update_topic(v, h.channel_id, publish_spec(t, m));
    lemma_update_wf(v, h.channel_id, publish_spec(t, m));
    lemma_recv_wf(publish_spec(t, m), h.slot);
    lemma_update_wf(w, h.channel_id, recv_state(publish_spec(t, m), h.slot));
    assert(registry_recv_state(w, h) == update_topic(
        w,
        h.channel_id,
        recv_state(publish_spec(t, m), h.slot),
    ));
}

/// Every session on a channel that has not fallen behind forwards the channel's
/// messages in publish order: a step from cursor `k` forwards the message with
/// sequence number `k`, the same for every session, and moves on to `k + 1`.
/// A step on one session leaves the cursors of all other sessions untouched.
pub proof fn lemma_sessions_share_publish_order(
    v: RegistryView,
    h: SubscriberHandle,
    other: SubscriberHandle,
)
    requires
        v.wf(),
        v.live(h),
        topic_of(v, h).holds(h.slot),
        topic_of(v, h).start <= topic_of(v, h).cursor(h.slot.index as int) < topic_of(v, h).end(),
        other.channel_id == h.channel_id,
        other.slot.index != h.slot.index,
        topic_of(v, h).attached(other.slot.index as int),
    ensures
        step_for(registry_recv_result(v, h)) == StreamStepView::Forward(
            topic_of(v, h).history[topic_of(v, h).cursor(h.slot.index as int) as int],
        ),
        registry_recv_state(v, h).wf(),
        registry_recv_state(v, h).live(h),
        topic_of(registry_recv_state(v, h), h).history == topic_of(v, h).history,
        topic_of(registry_recv_state(v, h), h).cursor(h.slot.index as int) == topic_of(v, h).cursor(h.slot.index as int) + 1,
        topic_of(registry_recv_state(v, h), h).cursors[other.slot.index as int] == topic_of(
            v,
            h,
        ).cursors[other.slot.index as int],
{
    let t = topic_of(v, h);
    lemma_delivery_in_publish_order(t, h.slot);
    lemma_recv_wf(t, h.slot);
    lemma_update_wf(v, h.channel_id, recv_state(t, h.slot));
    assert(registry_recv_state(v, h) == update_topic(v, h.channel_id, recv_state(t, h.slot)));
}

/// A session that forwards nothing while more than the capacity of messages
/// is sent on its channel falls behind: its next step skips the overflow notice
/// without ending the stream, and the step after forwards the oldest message
/// still held. A registered topic never holds more than the capacity.
pub proof fn lemma_slow_session_recovers(v: RegistryView, h: SubscriberHandle, ms: Seq<Seq<char>>)
    requires
        v.wf(),
        v.live(h),
        topic_of(v, h).holds(h.slot),
        ms.len() > TOPIC_CAPACITY,
        topic_of(v, h).end() + ms.len() <= u64::MAX,
    ensures
        ({
            let w = update_topic(v, h.channel_id, publish_all(topic_of(v, h), ms));
            let after = registry_recv_state(w, h);
            &&& w.wf()
            &&& topic_of(w, h).retained().len() <= TOPIC_CAPACITY
            &&& step_for(registry_recv_result(w, h)) == StreamStepView::Skip
            &&& after.wf()
            &&& after.live(h)
            &&& step_for(registry_recv_result(after, h)) == StreamStepView::Forward(
                topic_of(w, h).history[topic_of(w, h).start as int],
            )
        }),
{
    let t = topic_of(v, h);
    lemma_publish_all(t, ms);
    lemma_slow_subscriber_recovers(t, h.slot, ms);
    let t2 = publish_all(t, ms);
    lemma_update_wf(v, h.channel_id, t2);
    let w = update_topic(v, h.channel_id, t2);
    lemma_recv_wf(t2, h.slot);
    lemma_update_wf(w, h.channel_id, recv_state(t2, h.slot));
    assert(registry_recv_state(w, h) == update_topic(w, h.channel_id, recv_state(t2, h.slot)));
}

/// A send on a registered channel with no session attached is an ordinary
/// step: the registry stays well formed, the message joins the channel's
/// history, and still no session is attached. `send` returns `Ok` for it.
pub proof fn lemma_send_without_sessions(v: RegistryView, c: u128, m: Seq<char>)
    requires
        v.wf(),
        v.topics.contains_key(c),
        v.topics[c].topic.end() < u64::MAX,
        forall|s: int| !#[trigger] v.topics[c].topic.attached(s),
    ensures
        ({
            let w = update_topic(v, c, publish_spec(v.topics[c].topic, m));
            &&& w.wf()
            &&& w.topics[c].topic.history == v.topics[c].topic.history.push(m)
            &&& forall|s: int| !#[trigger] w.topics[c].topic.attached(s)
        }),
{
    lemma_publish_without_subscribers(v.topics[c].topic, m);
    lemma_update_wf(v, c, publish_spec(v.topics[c].topic, m));
}

/// Every topic of a well-formed registry holds at most the capacity of
/// messages, however many were sent and however slowly its sessions read.
pub proof fn lemma_bounded_buffer(v: RegistryView, c: u128)
    requires
        v.wf(),
        v.topics.contains_key(c),
    ensures
        v.topics[c].topic.retained().len() <= TOPIC_CAPACITY,
{
}

} // verus!
