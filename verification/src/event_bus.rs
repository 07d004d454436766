//! A lightweight event bus for decoupled communication between components:
//! events are broadcast to every subscriber over a tokio broadcast channel.
//! Waiting for events is the caller's part.
use vstd::prelude::*;
use std::sync::Arc;

use crate::json::JsonValue;
use crate::text::{owned, str_eq};

verus! {

/// The sending half of a tokio broadcast channel, carried through unchanged.
#[verifier::external_type_specification]
#[verifier::external_body]
#[verifier::reject_recursive_types(T)]
pub struct ExBroadcastSender<T>(tokio::sync::broadcast::Sender<T>);

/// The receiving half of a tokio broadcast channel, carried through
/// unchanged.
#[verifier::external_type_specification]
#[verifier::external_body]
#[verifier::reject_recursive_types(T)]
pub struct ExBroadcastReceiver<T>(tokio::sync::broadcast::Receiver<T>);

/// The number of events buffered per channel by default.
pub const DEFAULT_CAPACITY: usize = 256;

/// Calls `SystemTime::now` and takes the milliseconds since the Unix epoch
/// (0 before it) to 64 bits. The time is not stated.
#[verifier::external_body]
fn unix_millis() -> u64 {
    std::time::SystemTime::now().duration_since(std::time::UNIX_EPOCH).unwrap_or_default().as_millis() as u64
}

/// An event published on the bus.
#[derive(Debug)]
pub struct Event {
    /// The kind of event (such as `tool_call_start`).
    pub event_type: String,
    /// The component that published it.
    pub source: String,
    pub data: JsonValue,
    /// Milliseconds since the Unix epoch.
    pub timestamp_ms: u64,
}

impl Clone for Event {
    fn clone(&self) -> (r: Self)
        ensures
            r.event_type == self.event_type,
            r.source == self.source,
            r.data@ == self.data@,
            r.timestamp_ms == self.timestamp_ms,
    {
        Event {
            event_type: self.event_type.clone(),
            source: self.source.clone(),
            data: self.data.duplicate(),
            timestamp_ms: self.timestamp_ms,
        }
    }
}

impl Event {
    /// An event of `event_type` from `source`, stamped now.
    pub fn new(event_type: &str, source: &str, data: JsonValue) -> (r: Self)
        ensures
            r.event_type@ == event_type@,
            r.source@ == source@,
            r.data == data,
    {
        Event { event_type: owned(event_type), source: owned(source), data, timestamp_ms: unix_millis() }
    }
}

/// Calls `broadcast::channel` and keeps the sender (the first receiver is
/// dropped). Panics on a capacity of 0 or above `usize::MAX / 2`, which
/// `requires` leaves out.
#[verifier::external_body]
fn broadcast_sender(capacity: usize) -> tokio::sync::broadcast::Sender<Event>
    requires
        0 < capacity <= usize::MAX / 2,
{
    tokio::sync::broadcast::channel(capacity).0
}

/// Calls `Sender::send`; whether some subscriber took the event is not
/// stated.
#[verifier::external_body]
fn broadcast_send(sender: &tokio::sync::broadcast::Sender<Event>, event: Event) -> (r: bool) {
    sender.send(event).is_ok()
}

/// Calls `Sender::subscribe`. The receiver is not stated. (It panics only
/// once `usize::MAX / 4` receivers exist.)
#[verifier::external_body]
fn broadcast_subscribe(sender: &tokio::sync::broadcast::Sender<Event>) -> tokio::sync::broadcast::Receiver<Event> {
    sender.subscribe()
}

/// Calls `Sender::receiver_count`; the count, which other threads change,
/// is not stated.
#[verifier::external_body]
fn broadcast_receiver_count(sender: &tokio::sync::broadcast::Sender<Event>) -> usize {
    sender.receiver_count()
}

/// The shared state of a bus.
#[derive(Debug)]
pub struct EventBusInner {
    sender: tokio::sync::broadcast::Sender<Event>,
    capacity: usize,
}

/// An event bus; clones share one channel.
#[derive(Clone, Debug)]
pub struct EventBus {
    inner: Arc<EventBusInner>,
}

impl EventBus {
    /// The number of events the bus buffers per subscriber.
    pub closed spec fn capacity_view(&self) -> nat {
        self.inner.capacity as nat
    }

    /// A bus with the default capacity.
    pub fn new() -> (r: Self)
        ensures
            r.capacity_view() == DEFAULT_CAPACITY,
    {
        Self::with_capacity(DEFAULT_CAPACITY)
    }

    /// A bus that buffers `capacity` events per subscriber.
    pub fn with_capacity(capacity: usize) -> (r: Self)
        requires
            0 < capacity <= usize::MAX / 2,
        ensures
            r.capacity_view() == capacity,
    {
        EventBus { inner: Arc::new(EventBusInner { sender: broadcast_sender(capacity), capacity }) }
    }

    /// The number of events the bus buffers per subscriber.
    pub fn capacity(&self) -> (r: usize)
        ensures
            r == self.capacity_view(),
    {
        self.inner.capacity
    }

    /// Publishes an event to every subscriber; with none, it is dropped.
    pub fn publish(&self, event: Event) {
        let _ = broadcast_send(&self.inner.sender, event);
    }

    /// Publishes an event of `event_type` from `source`, stamped now.
    pub fn emit(&self, event_type: &str, source: &str, data: JsonValue) {
        self.publish(Event::new(event_type, source, data));
    }

    /// A new subscriber's receiver.
    pub fn subscribe(&self) -> tokio::sync::broadcast::Receiver<Event> {
        broadcast_subscribe(&self.inner.sender)
    }

    /// The number of active subscribers.
    pub fn subscriber_count(&self) -> usize {
        broadcast_receiver_count(&self.inner.sender)
    }
}

impl Default for EventBus {
    fn default() -> (r: Self)
        ensures
            r.capacity_view() == DEFAULT_CAPACITY,
    {
        Self::new()
    }
}

/// A subscriber that takes only the events of some types (all where none
/// are named).
pub struct FilteredSubscriber {
    pub receiver: tokio::sync::broadcast::Receiver<Event>,
    pub event_types: Option<Vec<String>>,
}

/// Whether `t` is one of the texts `ts`.
pub open spec fn has_text(ts: Seq<String>, t: Seq<char>) -> bool {
    exists|i: int| 0 <= i < ts.len() && (#[trigger] ts[i])@ == t
}

/// Whether a subscriber filtering on `types` takes an event of `t`.
pub open spec fn wanted(types: Option<Seq<String>>, t: Seq<char>) -> bool {
    match types {
        None => true,
        Some(ts) => has_text(ts, t),
    }
}

impl FilteredSubscriber {
    /// A subscriber of `bus` for the events of `event_types`.
    pub fn new(bus: &EventBus, event_types: Option<Vec<String>>) -> (r: Self)
        ensures
            r.event_types == event_types,
    {
        FilteredSubscriber { receiver: bus.subscribe(), event_types }
    }

    /// Whether the subscriber takes an event of `event_type`.
    pub fn wants(&self, event_type: &str) -> (r: bool)
        ensures
            r == wanted(
                match self.event_types {
                    Some(v) => Some(v@),
                    None => None,
                },
                event_type@,
            ),
    {
        match &self.event_types {
            None => true,
            Some(types) => {
                let mut i: usize = 0;
                while i < types.len()
                    invariant
                        i <= types@.len(),
                        self.event_types == Some(*types),
                        forall|k: int| 0 <= k < i ==> (#[trigger] types@[k])@ != event_type@,
                    decreases types@.len() - i,
                {
                    if str_eq(types[i].as_str(), event_type) {
                        let ghost tv = types@;
                        assert(tv[i as int]@ == event_type@);
                        assert(has_text(tv, event_type@));
                        return true;
                    }
                    i = i + 1;
                }
                false
            },
        }
    }
}

// ---------------------------------------------------------------------------
// Grouping
// ---------------------------------------------------------------------------

/// The kinds of events in order of first appearance, with the positions of
/// the events of each.
pub open spec fn grouping(types: Seq<Seq<char>>) -> Seq<(Seq<char>, Seq<int>)>
    decreases types.len(),
{
    if types.len() == 0 {
        Seq::empty()
    } else {
        let g = grouping(types.drop_last());
        let t = types.last();
        let i = types.len() - 1;
        match group_index(g, t) {
            Some(j) => g.update(j, (t, g[j].1.push(i))),
            None => g.push((t, seq![i])),
        }
    }
}

/// The position of the group of kind `t`, if any.
pub open spec fn group_index(g: Seq<(Seq<char>, Seq<int>)>, t: Seq<char>) -> Option<int>
    decreases g.len(),
{
    if g.len() == 0 {
        None
    } else if g.last().0 == t {
        Some(g.len() - 1)
    } else {
        group_index(g.drop_last(), t)
    }
}

proof fn lemma_group_index(g: Seq<(Seq<char>, Seq<int>)>, t: Seq<char>)
    ensures
        group_index(g, t) matches Some(j) ==> 0 <= j < g.len() && g[j].0 == t,
        group_index(g, t) is None ==> forall|k: int| 0 <= k < g.len() ==> (#[trigger] g[k]).0 != t,
    decreases g.len(),
{
    if g.len() > 0 && g.last().0 != t {
        lemma_group_index(g.drop_last(), t);
        if group_index(g, t) is None {
            assert forall|k: int| 0 <= k < g.len() implies (#[trigger] g[k]).0 != t by {
                if k < g.len() - 1 {
                    assert(g[k] == g.drop_last()[k]);
                }
            }
        }
    }
}

/// The kinds of a list of events.
pub open spec fn event_types(events: Seq<Event>) -> Seq<Seq<char>> {
    events.map_values(|e: Event| e.event_type@)
}

/// Groups events by kind: the kinds in order of first appearance, each with
/// its events in order.
pub fn group_events_by_type<'a>(events: &'a [Event]) -> (r: Vec<(String, Vec<&'a Event>)>)
    ensures
        r@.len() == grouping(event_types(events@)).len(),
        forall|j: int|
            0 <= j < r@.len() ==> (#[trigger] r@[j]).0@ == grouping(event_types(events@))[j].0 && r@[j].1@.len()
                == grouping(event_types(events@))[j].1.len(),
        forall|j: int, k: int|
            #![trigger r@[j].1@[k]]
            0 <= j < r@.len() && 0 <= k < r@[j].1@.len() ==> *r@[j].1@[k] == events@[grouping(
                event_types(events@),
            )[j].1[k]],
{
    let ghost ts = event_types(events@);
    let mut groups: Vec<(String, Vec<&'a Event>)> = Vec::new();
    let mut i: usize = 0;
    while i < events.len()
        invariant
            i <= events@.len(),
            ts == event_types(events@),
            groups@.len() == grouping(ts.take(i as int)).len(),
            forall|j: int|
                0 <= j < groups@.len() ==> (#[trigger] groups@[j]).0@ == grouping(ts.take(i as int))[j].0
                    && groups@[j].1@.len() == grouping(ts.take(i as int))[j].1.len(),
            forall|j: int, k: int|
                #![trigger groups@[j].1@[k]]
                0 <= j < groups@.len() && 0 <= k < groups@[j].1@.len() ==> *groups@[j].1@[k]
                    == events@[grouping(ts.take(i as int))[j].1[k]],
        decreases events@.len() - i,
    {
        let ghost g0 = grouping(ts.take(i as int));
        proof {
            assert(ts.take(i + 1).drop_last() =~= ts.take(i as int));
            assert(ts.take(i + 1).last() == events@[i as int].event_type@);
            lemma_group_index(g0, events@[i as int].event_type@);
        }
        let e = &events[i];
        let mut k = groups.len();
        assert(g0.take(k as int) =~= g0);
        while k > 0
            invariant
                k <= groups@.len(),
                groups@.len() == g0.len(),
                forall|m: int| 0 <= m < groups@.len() ==> (#[trigger] groups@[m]).0@ == g0[m].0,
                group_index(g0, e.event_type@) == group_index(g0.take(k as int), e.event_type@),
            ensures
                k <= groups@.len(),
                group_index(g0, e.event_type@) == group_index(g0.take(k as int), e.event_type@),
                k > 0 ==> g0[k - 1].0 == e.event_type@,
            decreases k,
        {
            proof {
                assert(g0.take(k as int).drop_last() =~= g0.take(k - 1));
                assert(g0.take(k as int).last() == g0[k - 1]);
            }
            if str_eq(groups[k - 1].0.as_str(), e.event_type.as_str()) {
                break;
            }
            k = k - 1;
        }
        let ghost t = e.event_type@;
        let ghost before = groups@;
        if k > 0 {
            let j = k - 1;
            proof {
                assert(g0.take(k as int).last() == g0[j as int]);
                assert(g0.take(k as int).len() == k);
                assert(group_index(g0, t) == Some(j as int));
            }
            groups[j].1.push(e);
            proof {
                let g1 = grouping(ts.take(i + 1));
                assert(g1 == g0.update(j as int, (t, g0[j as int].1.push(i as int))));
                assert(groups@[j as int].1@ == before[j as int].1@.push(e));
                assert forall|m: int| 0 <= m < groups@.len() implies (#[trigger] groups@[m]).0@ == g1[m].0
                    && groups@[m].1@.len() == g1[m].1.len() by {
                    if m != j {
                        assert(groups@[m] == before[m]);
                    }
                }
                assert forall|m: int, q: int|
                    #![trigger groups@[m].1@[q]]
                    0 <= m < groups@.len() && 0 <= q < groups@[m].1@.len() implies *groups@[m].1@[q]
                        == events@[g1[m].1[q]] by {
                    if m != j {
                        assert(groups@[m] == before[m]);
                        assert(before[m].1@[q] == groups@[m].1@[q]);
                    } else if q < before[m].1@.len() {
                        assert(before[m].1@[q] == groups@[m].1@[q]);
                    }
                }
            }
        } else {
            proof {
                assert(g0.take(0) =~= Seq::<(Seq<char>, Seq<int>)>::empty());
                assert(group_index(g0, t) is None);
            }
            let mut v: Vec<&'a Event> = Vec::new();
            v.push(e);
            groups.push((e.event_type.clone(), v));
            proof {
                let g1 = grouping(ts.take(i + 1));
                assert(g1 == g0.push((t, seq![i as int])));
                assert forall|m: int| 0 <= m < groups@.len() implies (#[trigger] groups@[m]).0@ == g1[m].0
                    && groups@[m].1@.len() == g1[m].1.len() by {
                    if m < before.len() {
                        assert(groups@[m] == before[m]);
                    }
                }
                assert forall|m: int, q: int|
                    #![trigger groups@[m].1@[q]]
                    0 <= m < groups@.len() && 0 <= q < groups@[m].1@.len() implies *groups@[m].1@[q]
                        == events@[g1[m].1[q]] by {
                    if m < before.len() {
                        assert(groups@[m] == before[m]);
                        assert(before[m].1@[q] == groups@[m].1@[q]);
                    }
                }
            }
        }
        i = i + 1;
    }
    assert(ts.take(events@.len() as int) =~= ts);
    groups
}

} // verus!
