//! The guarantees of the context state machine, stated and proved over
//! the transition model of `state`: openness is monotonic, the overall
//! timeout is sum-based, the message cap closes exactly on the last
//! accepted message, and the renew timeout measures the gap since the
//! last accepted message.

use vstd::prelude::*;
use std::sync::Arc;
use crate::conditions::Conditions;
use crate::message::Message;
use crate::state::{StateModel, spec_fresh, timer_step, accept_step, spec_accepts, sat_add};

verus! {

/// One stimulus a live context can receive.
pub ghost enum Stimulus {
    Tick(u32),
    Deliver(Arc<Message>),
}

/// One transition of the context state machine.
pub open spec fn step(c: Conditions, s: StateModel, e: Stimulus) -> StateModel {
    match e {
        Stimulus::Tick(delta) => timer_step(c, s, delta),
        Stimulus::Deliver(m) => accept_step(c, s, m),
    }
}

/// A whole run of stimuli, first to last.
pub open spec fn run(c: Conditions, s: StateModel, es: Seq<Stimulus>) -> StateModel
    decreases es.len(),
{
    if es.len() == 0 {
        s
    } else {
        run(c, step(c, s, es[0]), es.subrange(1, es.len() as int))
    }
}

/// A run of timer ticks only.
pub open spec fn run_timers(c: Conditions, s: StateModel, ds: Seq<u32>) -> StateModel
    decreases ds.len(),
{
    if ds.len() == 0 {
        s
    } else {
        run_timers(c, timer_step(c, s, ds[0]), ds.subrange(1, ds.len() as int))
    }
}

/// A run of message deliveries only.
pub open spec fn run_accepts(c: Conditions, s: StateModel, ms: Seq<Arc<Message>>) -> StateModel
    decreases ms.len(),
{
    if ms.len() == 0 {
        s
    } else {
        run_accepts(c, accept_step(c, s, ms[0]), ms.subrange(1, ms.len() as int))
    }
}

/// The total of a sequence of tick deltas.
pub open spec fn sum(ds: Seq<u32>) -> int
    decreases ds.len(),
{
    if ds.len() == 0 {
        0
    } else {
        ds[0] + sum(ds.subrange(1, ds.len() as int))
    }
}

pub proof fn lemma_sum_nonneg(ds: Seq<u32>)
    ensures
        sum(ds) >= 0,
    decreases ds.len(),
{
    if ds.len() > 0 {
        lemma_sum_nonneg(ds.subrange(1, ds.len() as int));
    }
}

/// Openness is monotonic, second half: once a closing condition has
/// fired, no run of stimuli reopens the context, or changes it at all.
pub proof fn lemma_closed_is_forever(c: Conditions, s: StateModel, es: Seq<Stimulus>)
    requires
        s.closed,
    ensures
        run(c, s, es) == s,
        !run(c, s, es).opened <== !s.opened,
    decreases es.len(),
{
    if es.len() > 0 {
        assert(step(c, s, es[0]) == s);
        lemma_closed_is_forever(c, s, es.subrange(1, es.len() as int));
    }
}

/// Openness is monotonic, first half: a context is not open before its
/// first accepted message, however much time passes.
pub proof fn lemma_not_open_before_first_message(c: Conditions, es: Seq<Stimulus>)
    requires
        forall|i: int| 0 <= i < es.len() ==> es[i] is Tick,
    ensures
        !run(c, spec_fresh(), es).opened,
        run(c, spec_fresh(), es).msgs.len() == 0,
    decreases es.len(),
{
    lemma_ticks_keep_unopened(c, spec_fresh(), es);
}

/// Timer ticks never open a context that has no accepted message.
pub proof fn lemma_ticks_keep_unopened(c: Conditions, s: StateModel, es: Seq<Stimulus>)
    requires
        !s.opened,
        forall|i: int| 0 <= i < es.len() ==> es[i] is Tick,
    ensures
        !run(c, s, es).opened,
        run(c, s, es).msgs == s.msgs,
    decreases es.len(),
{
    if es.len() > 0 {
        let s2 = step(c, s, es[0]);
        assert(!s2.opened && s2.msgs == s.msgs);
        lemma_ticks_keep_unopened(c, s2, es.subrange(1, es.len() as int));
    }
}

/// With only the overall timeout configured, an open context closes
/// exactly when the delivered tick deltas reach the timeout in sum,
/// regardless of how they are chunked.
pub proof fn lemma_timeout_is_sum_based(c: Conditions, s: StateModel, ds: Seq<u32>)
    requires
        c.max_size is None,
        c.renew_timeout is None,
        s.opened,
        !s.closed,
        s.since_open < c.timeout,
    ensures
        run_timers(c, s, ds).opened <==> s.since_open + sum(ds) < c.timeout,
    decreases ds.len(),
{
    if ds.len() > 0 {
        let d = ds[0];
        let rest = ds.subrange(1, ds.len() as int);
        let s2 = timer_step(c, s, d);
        lemma_sum_nonneg(rest);
        if s.since_open + d >= c.timeout {
            assert(sat_add(s.since_open, d) >= c.timeout);
            assert(s2.closed);
            lemma_timers_keep_closed(c, s2, rest);
        } else {
            lemma_timeout_is_sum_based(c, s2, rest);
        }
    }
}

/// Timer ticks leave a closed context unchanged.
pub proof fn lemma_timers_keep_closed(c: Conditions, s: StateModel, ds: Seq<u32>)
    requires
        s.closed,
    ensures
        run_timers(c, s, ds) == s,
    decreases ds.len(),
{
    if ds.len() > 0 {
        lemma_timers_keep_closed(c, s, ds.subrange(1, ds.len() as int));
    }
}

/// Message deliveries leave a closed context unchanged.
pub proof fn lemma_accepts_keep_closed(c: Conditions, s: StateModel, ms: Seq<Arc<Message>>)
    requires
        s.closed,
    ensures
        run_accepts(c, s, ms) == s,
    decreases ms.len(),
{
    if ms.len() > 0 {
        lemma_accepts_keep_closed(c, s, ms.subrange(1, ms.len() as int));
    }
}

/// The generalized cap argument: from a not-yet-full open-or-fresh
/// state, matching deliveries close the context exactly when the count
/// of accepted messages reaches the cap.
proof fn lemma_cap_run(c: Conditions, s: StateModel, ms: Seq<Arc<Message>>)
    requires
        c.max_size is Some,
        c.max_size->0 >= 1,
        c.renew_timeout is None || c.renew_timeout->0 >= 1,
        forall|i: int| 0 <= i < ms.len() ==> c.spec_matches(*#[trigger] ms[i]),
        !s.closed,
        s.msgs.len() < c.max_size->0,
        s.since_open < c.timeout,
        s.opened <==> s.msgs.len() > 0,
    ensures
        run_accepts(c, s, ms).opened <==> (0 < s.msgs.len() + ms.len() < c.max_size->0),
        run_accepts(c, s, ms).closed <==> s.msgs.len() + ms.len() >= c.max_size->0,
        run_accepts(c, s, ms).msgs.len() == if s.msgs.len() + ms.len() >= c.max_size->0 {
            c.max_size->0 as nat
        } else {
            s.msgs.len() + ms.len()
        },
    decreases ms.len(),
{
    if ms.len() > 0 {
        let rest = ms.subrange(1, ms.len() as int);
        let s2 = accept_step(c, s, ms[0]);
        assert(spec_accepts(c, s, ms[0]));
        if s.msgs.len() + 1 == c.max_size->0 {
            assert(s2.closed);
            lemma_accepts_keep_closed(c, s2, rest);
        } else {
            lemma_cap_run(c, s2, rest);
        }
    }
}

/// With a message cap of `n >= 1` (and neither timer policy able to
/// fire while no time passes), a fresh context that is delivered a run
/// of matching messages closes exactly upon accepting its n-th one, not
/// before; later deliveries bounce off the closed context.
pub proof fn lemma_max_size_closes_on_nth(c: Conditions, ms: Seq<Arc<Message>>)
    requires
        c.max_size is Some,
        c.max_size->0 >= 1,
        c.timeout >= 1,
        c.renew_timeout is None || c.renew_timeout->0 >= 1,
        forall|i: int| 0 <= i < ms.len() ==> c.spec_matches(*#[trigger] ms[i]),
    ensures
        run_accepts(c, spec_fresh(), ms).opened <==> (0 < ms.len() < c.max_size->0),
        run_accepts(c, spec_fresh(), ms).closed <==> ms.len() >= c.max_size->0,
        run_accepts(c, spec_fresh(), ms).msgs.len() == if ms.len() >= c.max_size->0 {
            c.max_size->0 as nat
        } else {
            ms.len()
        },
{
    lemma_cap_run(c, spec_fresh(), ms);
}

/// With a renew timeout configured, an open context whose other
/// policies cannot fire within the gap survives tick deltas summing to
/// less than the renew timeout since the last accepted message, and
/// closes as soon as they reach it.
pub proof fn lemma_renew_gap_closes(c: Conditions, s: StateModel, ds: Seq<u32>)
    requires
        c.renew_timeout is Some,
        c.max_size is None || s.msgs.len() < c.max_size->0,
        s.opened,
        !s.closed,
        s.since_last < c.renew_timeout->0,
        s.since_open + sum(ds) < c.timeout,
    ensures
        run_timers(c, s, ds).opened <==> s.since_last + sum(ds) < c.renew_timeout->0,
    decreases ds.len(),
{
    if ds.len() > 0 {
        let d = ds[0];
        let rest = ds.subrange(1, ds.len() as int);
        let s2 = timer_step(c, s, d);
        lemma_sum_nonneg(rest);
        if s.since_last + d >= c.renew_timeout->0 {
            assert(sat_add(s.since_last, d) >= c.renew_timeout->0);
            assert(s2.closed);
            lemma_timers_keep_closed(c, s2, rest);
        } else {
            assert(s.since_open + d < c.timeout);
            lemma_renew_gap_closes(c, s2, rest);
        }
    }
}

/// Every accepted message resets the renew gap to zero.
pub proof fn lemma_accept_resets_gap(c: Conditions, s: StateModel, m: Arc<Message>)
    requires
        spec_accepts(c, s, m),
    ensures
        accept_step(c, s, m).since_last == 0,
{
}

} // verus!
