//! The event bus: handlers registered under a priority, called in the
//! order of their priorities, with the right of any of them to cancel the
//! event for those that come after.
//!
//! A bus holds the handlers of one kind of event. A handler takes the
//! event and gives it back, changed or not, with its verdict.

use vstd::prelude::*;

verus! {

/// When a handler is called. `Highest` comes first and `Monitor` last; a
/// `Monitor` handler is there to look at what the others made of the event.
#[derive(Debug, Clone, Copy, PartialEq, Eq, Structural, PartialOrd, Ord, Hash)]
pub enum EventPriority {
    Monitor,
    Lowest,
    Low,
    Normal,
    High,
    Highest,
}

/// Why a handler gave up.
#[derive(Debug)]
pub enum EventError {
    /// The handler was handed an event of a kind it does not handle.
    UnexpectedType(String),
}

/// An event that a handler can cancel.
pub trait Cancelable {
    /// Whether the event stands canceled.
    spec fn canceled(&self) -> bool;

    fn is_canceled(&self) -> (canceled: bool)
        ensures
            canceled == self.canceled(),
    ;

    fn set_canceled(&mut self, canceled: bool)
        ensures
            final(self).canceled() == canceled,
    ;
}

/// An event has a name that does not change.
pub trait Event {
    fn name(&self) -> &'static str;
}

/// A handler with the priority it was registered under.
pub struct Registered<H> {
    pub priority: EventPriority,
    pub handler: H,
}

/// The handlers of one kind of event, in the order they are called.
pub struct EventBus<H> {
    listeners: Vec<Registered<H>>,
}

impl EventPriority {
    /// The place of the priority, from 0 for `Monitor` up to 5 for
    /// `Highest`.
    pub open spec fn rank(self) -> int {
        match self {
            EventPriority::Monitor => 0,
            EventPriority::Lowest => 1,
            EventPriority::Low => 2,
            EventPriority::Normal => 3,
            EventPriority::High => 4,
            EventPriority::Highest => 5,
        }
    }

    /// The place of the priority, from 0 for `Monitor` up to 5 for
    /// `Highest`.
    pub fn level(&self) -> (rank: u8)
        ensures
            rank == self.rank(),
    {
        match self {
            EventPriority::Monitor => 0,
            EventPriority::Lowest => 1,
            EventPriority::Low => 2,
            EventPriority::Normal => 3,
            EventPriority::High => 4,
            EventPriority::Highest => 5,
        }
    }
}

/// Whether a handler of `priority` is called for an event that stands
/// canceled or not: every handler while it does not, and only the
/// `Monitor` handlers once it does.
pub open spec fn delivered(priority: EventPriority, canceled: bool) -> bool {
    !canceled || priority == EventPriority::Monitor
}

/// Whether the priorities of `entries` never rise from one to the next.
pub open spec fn ordered<H>(entries: Seq<Registered<H>>) -> bool {
    forall|i: int, j: int|
        0 <= i <= j < entries.len() ==> (#[trigger] entries[i]).priority.rank() >= (
        #[trigger] entries[j]).priority.rank()
}

/// The place at which a handler of `priority` is put among `entries`:
/// behind every handler whose priority is as high or higher.
pub open spec fn slot<H>(entries: Seq<Registered<H>>, priority: EventPriority, from: int) -> int
    decreases entries.len() - from,
{
    if from < 0 || from >= entries.len() {
        entries.len() as int
    } else if entries[from].priority.rank() < priority.rank() {
        from
    } else {
        slot(entries, priority, from + 1)
    }
}

/// Whether calling the handlers of `entries` from the `i`-th on, one after
/// the other, can turn `event` into `outcome`.
///
/// A handler that is not due is passed over. One that is due takes the
/// event and gives back the event for the next one. The first that fails
/// ends the emission with its error.
pub open spec fn emission<E: Cancelable, H: Fn(E) -> (E, Result<(), EventError>)>(
    entries: Seq<Registered<H>>,
    i: int,
    event: E,
    outcome: (E, Result<(), EventError>),
) -> bool
    decreases entries.len() - i,
{
    if i < 0 || i >= entries.len() {
        outcome.0 == event && outcome.1 is Ok
    } else if !delivered(entries[i].priority, event.canceled()) {
        emission(entries, i + 1, event, outcome)
    } else {
        exists|next: E, verdict: Result<(), EventError>|
            #[trigger] call_ensures(entries[i].handler, (event,), (next, verdict)) && (if verdict is Ok {
                emission(entries, i + 1, next, outcome)
            } else {
                outcome == (next, verdict)
            })
    }
}

impl<H> View for EventBus<H> {
    type V = Seq<Registered<H>>;

    closed spec fn view(&self) -> Seq<Registered<H>> {
        self.listeners@
    }
}

impl<H> EventBus<H> {
    /// The handlers of a bus stand in the order of their priorities.
    #[verifier::type_invariant]
    closed spec fn well_ordered(&self) -> bool {
        ordered(self.listeners@)
    }

    /// A bus without handlers.
    pub fn new() -> (bus: EventBus<H>)
        ensures
            bus@.len() == 0,
    {
        EventBus { listeners: Vec::new() }
    }

    /// Does nothing, and lets the caller know that the handlers of the bus
    /// stand in the order of their priorities, the highest first.
    pub fn order(&self)
        ensures
            ordered(self@),
    {
        proof {
            use_type_invariant(self);
        }
    }

    /// The number of handlers.
    pub fn len(&self) -> (n: usize)
        ensures
            n == self@.len(),
    {
        self.listeners.len()
    }

    /// The priority of the `i`-th handler in the order of calling.
    pub fn priority_at(&self, i: usize) -> (priority: EventPriority)
        requires
            i < self@.len(),
        ensures
            priority == self@[i as int].priority,
    {
        self.listeners[i].priority
    }

    /// Registers `handler` under the priority `Normal`.
    pub fn subscribe(&mut self, handler: H)
        ensures
            final(self)@ == old(self)@.insert(
                slot(old(self)@, EventPriority::Normal, 0),
                Registered { priority: EventPriority::Normal, handler },
            ),
            ordered(final(self)@),
    {
        self.subscribe_with_priority(EventPriority::Normal, handler)
    }

    /// Registers `handler` under `priority`: behind the handlers of that
    /// priority and of higher ones, before those of lower ones. The other
    /// handlers keep their order.
    pub fn subscribe_with_priority(&mut self, priority: EventPriority, handler: H)
        ensures
            final(self)@ == old(self)@.insert(
                slot(old(self)@, priority, 0),
                Registered { priority, handler },
            ),
            ordered(final(self)@),
    {
        proof {
            use_type_invariant(&*self);
        }
        let ghost before = self.listeners@;
        let mut held = EventBus { listeners: Vec::new() };
        core::mem::swap(self, &mut held);
        let mut listeners = held.listeners;
        let mut at: usize = 0;
        while at < listeners.len() && listeners[at].priority.level() >= priority.level()
            invariant
                at <= listeners@.len(),
                listeners@ == before,
                slot(before, priority, 0) == slot(before, priority, at as int),
                forall|k: int| 0 <= k < at ==> (#[trigger] before[k]).priority.rank() >= priority.rank(),
            decreases listeners@.len() - at,
        {
            at += 1;
        }
        listeners.insert(at, Registered { priority, handler });
        proof {
            let after = listeners@;
            assert forall|i: int, j: int| 0 <= i <= j < after.len() implies (#[trigger] after[i]).priority.rank()
                >= (#[trigger] after[j]).priority.rank() by {
                let a = if i < at {
                    i
                } else {
                    i - 1
                };
                let b = if j < at {
                    j
                } else {
                    j - 1
                };
                if i != at && j != at {
                    assert(before[a].priority.rank() >= before[b].priority.rank());
                } else if i == at && j != at {
                    assert(before[at as int].priority.rank() >= before[b].priority.rank());
                } else if i != at && j == at {
                    assert(before[a].priority.rank() >= priority.rank());
                }
            }
        }
        *self = EventBus { listeners };
    }
}

impl<H> EventBus<H> {
    /// Calls the handlers that are due, in their order, each with the event
    /// as the one before left it, and gives back the event as the last one
    /// left it.
    ///
    /// While the event is canceled, only `Monitor` handlers are due. When a
    /// handler fails, no further handler is called and its error is the
    /// result.
    pub fn emit<E: Cancelable>(&self, event: E) -> (outcome: (E, Result<(), EventError>)) where
        H: Fn(E) -> (E, Result<(), EventError>),

        requires
            forall|i: int, e: E| 0 <= i < self@.len() ==> call_requires(self@[i].handler, (e,)),
        ensures
            emission(self@, 0, event, outcome),
    {
        let mut running = event;
        let mut i: usize = 0;
        while i < self.listeners.len()
            invariant
                i <= self@.len(),
                self@ == self.listeners@,
                forall|i: int, e: E| 0 <= i < self@.len() ==> call_requires(self@[i].handler, (e,)),
                forall|o: (E, Result<(), EventError>)|
                    emission(self@, i as int, running, o) ==> emission(self@, 0, event, o),
            decreases self@.len() - i,
        {
            let ghost current = running;
            let canceled = running.is_canceled();
            let due = !canceled || self.listeners[i].priority.level() == 0;
            if due {
                let (next, verdict) = (self.listeners[i].handler)(running);
                match verdict {
                    Err(e) => {
                        let outcome = (next, Err(e));
                        proof {
                            assert(call_ensures(
                                self@[i as int].handler,
                                (current,),
                                (next, verdict),
                            ));
                            assert(emission(self@, i as int, current, outcome));
                        }
                        return outcome;
                    },
                    Ok(()) => {
                        proof {
                            assert forall|o: (E, Result<(), EventError>)|
                                emission(self@, i + 1, next, o) implies emission(
                                self@,
                                0,
                                event,
                                o,
                            ) by {
                                assert(call_ensures(
                                    self@[i as int].handler,
                                    (current,),
                                    (next, verdict),
                                ));
                                assert(emission(self@, i as int, current, o));
                            }
                        }
                        running = next;
                    },
                }
            }
            i += 1;
        }
        (running, Ok(()))
    }
}

/// Once an event stands canceled, a handler is due exactly if it is a
/// `Monitor` handler.
pub proof fn lemma_canceled_reaches_monitors_only(priority: EventPriority)
    ensures
        delivered(priority, true) <==> priority == EventPriority::Monitor,
        delivered(priority, false),
{
}

/// Once an event stands canceled, the handlers that are no `Monitor`
/// handlers are passed over: an emission that has come to a stretch of
/// them with a canceled event ends as it would without the stretch.
pub proof fn lemma_canceled_skips<E: Cancelable, H: Fn(E) -> (E, Result<(), EventError>)>(
    entries: Seq<Registered<H>>,
    i: int,
    j: int,
    event: E,
    outcome: (E, Result<(), EventError>),
)
    requires
        0 <= i <= j <= entries.len(),
        event.canceled(),
        forall|k: int| i <= k < j ==> (#[trigger] entries[k]).priority != EventPriority::Monitor,
    ensures
        emission(entries, i, event, outcome) == emission(entries, j, event, outcome),
    decreases j - i,
{
    if i < j {
        assert(entries[i].priority != EventPriority::Monitor);
        lemma_canceled_skips(entries, i + 1, j, event, outcome);
    }
}

/// In a bus, no handler comes before one of a higher priority; so the
/// `Monitor` handlers come last.
pub proof fn lemma_monitors_last<H>(entries: Seq<Registered<H>>, i: int, j: int)
    requires
        ordered(entries),
        0 <= i <= j < entries.len(),
        entries[i].priority == EventPriority::Monitor,
    ensures
        entries[j].priority == EventPriority::Monitor,
{
}

} // verus!
