//! The mutable per-context aggregation state and its transition system:
//! what a context does on an accepted message and on a timer tick.

use vstd::prelude::*;
use std::sync::Arc;
use crate::conditions::Conditions;
use crate::message::Message;
use crate::timer::TimerEvent;

verus! {

/// The per-context buffer: the accepted messages and the timing
/// bookkeeping.
///
/// `opened` becomes true on the first accepted message; once a closing
/// condition fires, `closed` becomes true and `opened` false, forever.
#[derive(Debug)]
pub struct State {
    pub elapsed_time: u32,
    pub elapsed_time_since_last_message: u32,
    pub messages: Vec<Arc<Message>>,
    pub opened: bool,
    pub closed: bool,
}

/// The mathematical content of a `State`.
pub ghost struct StateModel {
    pub msgs: Seq<Arc<Message>>,
    pub since_open: u32,
    pub since_last: u32,
    pub opened: bool,
    pub closed: bool,
}

impl View for State {
    type V = StateModel;

    open spec fn view(&self) -> StateModel {
        StateModel {
            msgs: self.messages@,
            since_open: self.elapsed_time,
            since_last: self.elapsed_time_since_last_message,
            opened: self.opened,
            closed: self.closed,
        }
    }
}

/// The state of a context that has not seen any message yet.
pub open spec fn spec_fresh() -> StateModel {
    StateModel {
        msgs: Seq::empty(),
        since_open: 0,
        since_last: 0,
        opened: false,
        closed: false,
    }
}

/// Tick counters saturate instead of wrapping: a counter that has
/// reached the largest representable value is already past every
/// configurable limit.
pub open spec fn sat_add(a: u32, b: u32) -> u32 {
    if a + b > u32::MAX {
        u32::MAX
    } else {
        (a + b) as u32
    }
}

/// The closing policies of `c`, evaluated on the aggregation numbers of
/// `s`.
pub open spec fn spec_closing(c: Conditions, s: StateModel) -> bool {
    c.spec_is_closing(s.msgs.len(), s.since_open, s.since_last)
}

/// Closing: the context leaves the open state and never returns to it.
pub open spec fn spec_close(s: StateModel) -> StateModel {
    StateModel { opened: false, closed: true, ..s }
}

/// One timer tick of `delta` ticks.  A closed context ignores it; an
/// open one advances both counters and re-evaluates the closing
/// policies; a context that has not opened yet only counts time since
/// its creation.
pub open spec fn timer_step(c: Conditions, s: StateModel, delta: u32) -> StateModel {
    if s.closed {
        s
    } else if s.opened {
        let s2 = StateModel {
            since_open: sat_add(s.since_open, delta),
            since_last: sat_add(s.since_last, delta),
            ..s
        };
        if spec_closing(c, s2) {
            spec_close(s2)
        } else {
            s2
        }
    } else {
        StateModel { since_open: sat_add(s.since_open, delta), ..s }
    }
}

/// A message is absorbed iff the context has not closed and the message
/// carries one of the listed patterns.
pub open spec fn spec_accepts(c: Conditions, s: StateModel, m: Arc<Message>) -> bool {
    !s.closed && c.spec_matches(*m)
}

/// One message delivery.  An absorbed message is appended, resets the
/// renew counter, opens the context on first acceptance, and only then
/// are the closing policies re-evaluated: acceptance strictly precedes
/// closing evaluation.
pub open spec fn accept_step(c: Conditions, s: StateModel, m: Arc<Message>) -> StateModel {
    if !spec_accepts(c, s, m) {
        s
    } else {
        let s2 = StateModel { msgs: s.msgs.push(m), since_last: 0, opened: true, ..s };
        if spec_closing(c, s2) {
            spec_close(s2)
        } else {
            s2
        }
    }
}

impl State {
    pub fn new() -> (s: State)
        ensures
            s@ == spec_fresh(),
    {
        let s = State {
            elapsed_time: 0,
            elapsed_time_since_last_message: 0,
            messages: Vec::new(),
            opened: false,
            closed: false,
        };
        proof {
            assert(s@ =~= spec_fresh());
        }
        s
    }

    /// True before the first accepted message, true while the context
    /// aggregates, false forever once a closing condition has fired.
    pub fn is_open(&self) -> (r: bool)
        ensures
            r == self@.opened,
    {
        self.opened
    }

    /// Advances the logical clock by the event's tick delta.
    pub fn on_timer(&mut self, event: &TimerEvent, conditions: &Conditions)
        ensures
            final(self)@ == timer_step(*conditions, old(self)@, event.0),
    {
        if self.closed {
            return;
        }
        self.elapsed_time = self.elapsed_time.saturating_add(event.0);
        if self.opened {
            self.elapsed_time_since_last_message =
                self.elapsed_time_since_last_message.saturating_add(event.0);
            if conditions.is_closing(
                self.messages.len(),
                self.elapsed_time,
                self.elapsed_time_since_last_message,
            ) {
                self.opened = false;
                self.closed = true;
            }
        }
    }

    /// Delivers one shared message; returns whether it was absorbed.
    pub fn on_message(&mut self, event: Arc<Message>, conditions: &Conditions) -> (accepted: bool)
        ensures
            final(self)@ == accept_step(*conditions, old(self)@, event),
            accepted == spec_accepts(*conditions, old(self)@, event),
    {
        if self.closed {
            return false;
        }
        if !conditions.matches_message(&event) {
            return false;
        }
        self.messages.push(event);
        self.elapsed_time_since_last_message = 0;
        self.opened = true;
        if conditions.is_closing(
            self.messages.len(),
            self.elapsed_time,
            self.elapsed_time_since_last_message,
        ) {
            self.opened = false;
            self.closed = true;
        }
        true
    }
}

} // verus!
