//! The log of what went wrong of late.
use vstd::prelude::*;

verus! {

/// How long an event is kept, in nanoseconds: five minutes.
pub const LOG_RETENTION: u128 = 300_000_000_000;

/// An event: its text, and when it happened, in nanoseconds on one clock.
pub type EventView = (Seq<char>, nat);

/// The events of the last minutes, the oldest first.
pub struct EventLog {
    events: Vec<(String, u128)>,
}

/// Whether an event is still kept.
pub open spec fn is_recent(event: EventView, now: nat) -> bool {
    now <= event.1 + LOG_RETENTION
}

/// The events that are still kept, in their order.
pub open spec fn recent(events: Seq<EventView>, now: nat) -> Seq<EventView> {
    events.filter(|e: EventView| is_recent(e, now))
}

/// The log once an event was taken down that happens now.
pub open spec fn recorded(events: Seq<EventView>, text: Seq<char>, now: nat) -> Seq<EventView> {
    recent(events.push((text, now)), now)
}

/// The model of a list of events.
pub open spec fn events_view(events: Seq<(String, u128)>) -> Seq<EventView> {
    events.map_values(|e: (String, u128)| (e.0@, e.1 as nat))
}

impl View for EventLog {
    type V = Seq<EventView>;

    closed spec fn view(&self) -> Seq<EventView> {
        events_view(self.events@)
    }
}

fn kept(events: &Vec<(String, u128)>, now: u128) -> (r: Vec<(String, u128)>)
    ensures
        events_view(r@) == recent(events_view(events@), now as nat),
{
    let ghost all = events_view(events@);
    let ghost pred = |e: EventView| is_recent(e, now as nat);
    let mut out: Vec<(String, u128)> = Vec::new();
    let mut i: usize = 0;
    proof {
        reveal(Seq::filter);
        assert(events_view(out@) =~= recent(all.take(0), now as nat));
    }
    while i < events.len()
        invariant
            i <= events.len(),
            all == events_view(events@),
            pred == (|e: EventView| is_recent(e, now as nat)),
            events_view(out@) == recent(all.take(i as int), now as nat),
        decreases events.len() - i,
    {
        let ghost before = out@;
        let ghost next = all[i as int];
        let time = events[i].1;
        proof {
            assert(next == (events@[i as int].0@, time as nat));
            assert(all.take(i + 1) == all.take(i as int).push(next));
            all.take(i as int).lemma_filter_push(next, pred);
        }
        let elapsed: u128 = if now >= time { now - time } else { 0 };
        if elapsed <= LOG_RETENTION {
            out.push((events[i].0.clone(), time));
            assert(events_view(out@) =~= events_view(before).push(next));
        }
        i = i + 1;
    }
    assert(all.take(i as int) == all);
    out
}

impl EventLog {
    /// A log without events.
    pub fn new() -> (r: EventLog)
        ensures
            r@ == Seq::<EventView>::empty(),
    {
        let r = EventLog { events: Vec::new() };
        assert(r@ =~= Seq::<EventView>::empty());
        r
    }

    /// Takes down an event that happens now, and forgets those that are too
    /// old.
    pub fn record(&mut self, text: String, now: u128)
        ensures
            final(self)@ == recorded(old(self)@, text@, now as nat),
    {
        let ghost before = self@;
        self.events.push((text, now));
        assert(events_view(self.events@) =~= before.push((text@, now as nat)));
        self.events = kept(&self.events, now);
    }

    /// The events that are still kept. Those that are too old are forgotten.
    pub fn list(&mut self, now: u128) -> (r: Vec<(String, u128)>)
        ensures
            events_view(r@) == recent(old(self)@, now as nat),
            final(self)@ == recent(old(self)@, now as nat),
    {
        let events = kept(&self.events, now);
        self.events = kept(&self.events, now);
        events
    }
}

/// An event is listed until its time is over and never after: forgetting it
/// early does not matter, since what is recent later is recent now.
pub proof fn lemma_forgetting_is_final(events: Seq<EventView>, now: nat, later: nat)
    requires
        now <= later,
    ensures
        recent(recent(events, now), later) == recent(events, later),
    decreases events.len(),
{
    reveal(Seq::filter);
    if events.len() > 0 {
        let rest = events.drop_last();
        let pred = |e: EventView| is_recent(e, later);
        lemma_forgetting_is_final(rest, now, later);
        if is_recent(events.last(), now) {
            recent(rest, now).lemma_filter_push(events.last(), pred);
        }
    }
}

/// An event is listed exactly if it was taken down and its time is not over.
pub proof fn lemma_recent_events_are_listed(events: Seq<EventView>, event: EventView, now: nat)
    ensures
        recent(events, now).contains(event) <==> events.contains(event) && is_recent(event, now),
{
    let pred = |e: EventView| is_recent(e, now);
    if recent(events, now).contains(event) {
        events.lemma_filter_contains_rev(pred, event);
        let i = choose|i: int| 0 <= i < recent(events, now).len() && recent(events, now)[i] == event;
        events.lemma_filter_pred(pred, i);
    }
    if events.contains(event) && is_recent(event, now) {
        let i = choose|i: int| 0 <= i < events.len() && events[i] == event;
        events.lemma_filter_contains(pred, i);
    }
}

/// An event is kept for five minutes from when it happened, to the nanosecond.
pub proof fn lemma_five_minutes(text: Seq<char>, time: nat, age: nat)
    ensures
        is_recent((text, time), time + age) <==> age <= 5 * 60 * 1_000_000_000,
        is_recent((text, time + age), time),
{
}

/// The events that are kept stay in the order in which they came: of the first
/// events and one more behind them, those of the first are listed, and then the
/// one more if its time is not over.
pub proof fn lemma_order_of_events(events: Seq<EventView>, event: EventView, now: nat)
    ensures
        recent(Seq::empty(), now).len() == 0,
        recent(events.push(event), now) == (if now <= event.1 + 300_000_000_000 {
            recent(events, now).push(event)
        } else {
            recent(events, now)
        }),
{
    let pred = |e: EventView| is_recent(e, now);
    events.lemma_filter_push(event, pred);
    reveal(Seq::filter);
    assert(events.push(event).drop_last() =~= events);
}

/// An event that is taken down is the last of the log.
pub proof fn lemma_event_is_taken_down(events: Seq<EventView>, text: Seq<char>, now: nat)
    ensures
        recorded(events, text, now).len() > 0,
        recorded(events, text, now).last() == (text, now),
        recorded(events, text, now).drop_last() == recent(events, now),
{
    lemma_order_of_events(events, (text, now), now);
    assert(recorded(events, text, now).drop_last() =~= recent(events, now));
}

/// The model of a list of events is their texts and times, in order.
pub proof fn lemma_event_models(events: Seq<(String, u128)>, i: int)
    ensures
        events_view(events).len() == events.len(),
        0 <= i < events.len() ==> events_view(events)[i] == (events[i].0@, events[i].1 as nat),
{
}

} // verus!
