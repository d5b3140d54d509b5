//! Correlation contexts: a read-only `BaseContext` (identity, closing
//! conditions, optional action) combined with mutable aggregation state.
//! The linear variant keeps one message stream; the keyed variant
//! demultiplexes messages into per-key buckets, and the whole context
//! closes as soon as any bucket's policy fires.

use vstd::prelude::*;
use std::sync::Arc;
use crate::action::{MessageAction, spec_action_output};
use crate::conditions::Conditions;
use crate::dispatcher::Response;
use crate::message::{Message, MessageModel, opt_view};
use crate::state::{State, StateModel, spec_fresh, timer_step, accept_step};
use crate::timer::TimerEvent;

verus! {

/// Relies on uuid::Uuid::new_v4 and the hyphenated `Display` form of a
/// uuid: a fresh random identifier rendered as 36 characters.  Nothing
/// more can be promised of a random value.
#[verifier::external_body]
pub(crate) fn new_uuid() -> (r: String)
    ensures
        r@.len() == 36,
{
    uuid::Uuid::new_v4().to_string()
}

/// One stimulus delivered to a context.
#[derive(Debug)]
pub enum Event {
    Timer(TimerEvent),
    Message(Arc<Message>),
}

/// The capability a context offers the dispatch layer: take one
/// stimulus, hand back the responses of a closing, and name the
/// pattern identifiers it serves.
pub trait EventHandler<T> {
    fn handle_event(&mut self, event: T) -> Option<Vec<Response>>;

    fn handlers(&self) -> &Vec<String>;
}

impl EventHandler<Event> for LinearContext {
    fn handle_event(&mut self, event: Event) -> Option<Vec<Response>> {
        self.on_event(event)
    }

    fn handlers(&self) -> &Vec<String> {
        self.patterns()
    }
}

/// The immutable part of a context: its identity, its closing
/// conditions, and the optional action fired when it closes.
#[derive(Debug)]
pub struct BaseContext {
    pub uuid: String,
    pub name: Option<String>,
    pub conditions: Conditions,
    pub action: Option<MessageAction>,
}

/// Builds a `BaseContext`; name and action stay unset unless given.
pub struct BaseContextBuilder {
    pub uuid: String,
    pub name: Option<String>,
    pub conditions: Conditions,
    pub action: Option<MessageAction>,
}

impl BaseContextBuilder {
    pub fn new(uuid: String, conditions: Conditions) -> (b: BaseContextBuilder)
        ensures
            b.uuid == uuid,
            b.name is None,
            b.conditions == conditions,
            b.action is None,
    {
        BaseContextBuilder { uuid, name: None, conditions, action: None }
    }

    pub fn name(self, name: Option<String>) -> (b: BaseContextBuilder)
        ensures
            b.uuid == self.uuid,
            b.name == name,
            b.conditions == self.conditions,
            b.action == self.action,
    {
        BaseContextBuilder { name, ..self }
    }

    pub fn action(self, action: Option<MessageAction>) -> (b: BaseContextBuilder)
        ensures
            b.uuid == self.uuid,
            b.name == self.name,
            b.conditions == self.conditions,
            b.action == action,
    {
        BaseContextBuilder { action, ..self }
    }

    pub fn build(self) -> (b: BaseContext)
        ensures
            b.uuid == self.uuid,
            b.name == self.name,
            b.conditions == self.conditions,
            b.action == self.action,
    {
        let BaseContextBuilder { uuid, name, conditions, action } = self;
        BaseContext { uuid, name, conditions, action }
    }
}

/// `rs` is exactly the emission of `out`: one correlated message when
/// the action rendered, nothing otherwise.
pub open spec fn responses_match(rs: Seq<Response>, out: Option<MessageModel>) -> bool {
    match out {
        Some(mm) => rs.len() == 1 && rs[0] is Message && rs[0]->Message_0.message@ == mm,
        None => rs.len() == 0,
    }
}

impl BaseContext {
    pub fn conditions(&self) -> (c: &Conditions)
        ensures
            c == &self.conditions,
    {
        &self.conditions
    }

    pub fn uuid(&self) -> (u: &String)
        ensures
            u == &self.uuid,
    {
        &self.uuid
    }

    /// What this context emits when it closes over the given
    /// accumulated messages: the rendered correlated message, or
    /// nothing when no action is configured or the render fails.
    pub open spec fn spec_fire(&self, msgs: Seq<Arc<Message>>) -> Option<MessageModel> {
        match self.action {
            None => None,
            Some(a) => spec_action_output(a, self.uuid@, opt_view(self.name), msgs),
        }
    }

    /// Fires the configured action for a closing context, exactly once
    /// per closing; a failed render emits nothing.
    fn execute_actions(&self, state: &State) -> (rs: Vec<Response>)
        ensures
            responses_match(rs@, self.spec_fire(state@.msgs)),
    {
        let mut rs: Vec<Response> = Vec::new();
        match &self.action {
            Some(action) => {
                match action.execute(state, &self.uuid, &self.name) {
                    Some(response) => {
                        rs.push(Response::Message(response));
                    },
                    None => (),
                }
            },
            None => (),
        }
        rs
    }
}

/// The mathematical content of a context: its immutable base and its
/// aggregation state, one per bucket in the keyed variant.
pub ghost enum ContextModel {
    Linear { base: BaseContext, state: StateModel },
    Keyed { base: BaseContext, buckets: Seq<(Seq<char>, StateModel)> },
}

/// Some bucket is open.
pub open spec fn any_opened(buckets: Seq<(Seq<char>, StateModel)>) -> bool {
    exists|i: int| 0 <= i < buckets.len() && buckets[i].1.opened
}

/// Some bucket has closed; the whole keyed context counts as closed.
pub open spec fn any_closed(buckets: Seq<(Seq<char>, StateModel)>) -> bool {
    exists|i: int| 0 <= i < buckets.len() && buckets[i].1.closed
}

/// The first closed bucket, or -1.
pub open spec fn first_closed(buckets: Seq<(Seq<char>, StateModel)>) -> int
    decreases buckets.len(),
{
    if buckets.len() == 0 {
        -1
    } else if buckets[0].1.closed {
        0
    } else {
        let r = first_closed(buckets.subrange(1, buckets.len() as int));
        if r < 0 {
            -1
        } else {
            r + 1
        }
    }
}

/// The first bucket keyed by `key`, or -1.
pub open spec fn spec_find_key(buckets: Seq<(Seq<char>, StateModel)>, key: Seq<char>) -> int
    decreases buckets.len(),
{
    if buckets.len() == 0 {
        -1
    } else if buckets[0].0 == key {
        0
    } else {
        let r = spec_find_key(buckets.subrange(1, buckets.len() as int), key);
        if r < 0 {
            -1
        } else {
            r + 1
        }
    }
}

proof fn lemma_first_closed_at(buckets: Seq<(Seq<char>, StateModel)>, i: int)
    requires
        0 <= i < buckets.len(),
        buckets[i].1.closed,
        forall|j: int| 0 <= j < i ==> !buckets[j].1.closed,
    ensures
        first_closed(buckets) == i,
    decreases i,
{
    if i > 0 {
        lemma_first_closed_at(buckets.subrange(1, buckets.len() as int), i - 1);
    }
}

proof fn lemma_first_closed_none(buckets: Seq<(Seq<char>, StateModel)>)
    requires
        forall|j: int| 0 <= j < buckets.len() ==> !buckets[j].1.closed,
    ensures
        first_closed(buckets) == -1,
    decreases buckets.len(),
{
    if buckets.len() > 0 {
        lemma_first_closed_none(buckets.subrange(1, buckets.len() as int));
    }
}

proof fn lemma_find_key_at(buckets: Seq<(Seq<char>, StateModel)>, key: Seq<char>, i: int)
    requires
        0 <= i < buckets.len(),
        buckets[i].0 == key,
        forall|j: int| 0 <= j < i ==> buckets[j].0 != key,
    ensures
        spec_find_key(buckets, key) == i,
    decreases i,
{
    if i > 0 {
        lemma_find_key_at(buckets.subrange(1, buckets.len() as int), key, i - 1);
    }
}

proof fn lemma_find_key_absent(buckets: Seq<(Seq<char>, StateModel)>, key: Seq<char>)
    requires
        forall|j: int| 0 <= j < buckets.len() ==> buckets[j].0 != key,
    ensures
        spec_find_key(buckets, key) == -1,
    decreases buckets.len(),
{
    if buckets.len() > 0 {
        lemma_find_key_absent(buckets.subrange(1, buckets.len() as int), key);
    }
}

/// The views of the keyed buckets.
pub open spec fn buckets_view(map: Seq<(String, State)>) -> Seq<(Seq<char>, StateModel)> {
    map.map_values(|b: (String, State)| (b.0@, b.1@))
}

/// All buckets advanced by one timer tick.
pub open spec fn tick_buckets(
    c: Conditions,
    buckets: Seq<(Seq<char>, StateModel)>,
    delta: u32,
) -> Seq<(Seq<char>, StateModel)> {
    buckets.map_values(|b: (Seq<char>, StateModel)| (b.0, timer_step(c, b.1, delta)))
}

/// The sub-key a keyed context routes a message by: its name when it
/// has one, its uuid otherwise.
pub open spec fn spec_sub_key(m: Message) -> Seq<char> {
    match m.name {
        Some(n) => n@,
        None => m.uuid@,
    }
}

fn sub_key(m: &Message) -> (k: &String)
    ensures
        k@ == spec_sub_key(*m),
{
    match &m.name {
        Some(n) => n,
        None => &m.uuid,
    }
}

/// The immutable base of a context.
pub open spec fn ctx_base(cm: ContextModel) -> BaseContext {
    match cm {
        ContextModel::Linear { base, .. } => base,
        ContextModel::Keyed { base, .. } => base,
    }
}

/// A context is open while it aggregates; a keyed context is open while
/// some bucket is open and none has closed.
pub open spec fn ctx_opened(cm: ContextModel) -> bool {
    match cm {
        ContextModel::Linear { state, .. } => state.opened,
        ContextModel::Keyed { buckets, .. } => any_opened(buckets) && !any_closed(buckets),
    }
}

/// A context has closed once a closing condition fired; for a keyed
/// context, once any bucket closed.
pub open spec fn ctx_closed(cm: ContextModel) -> bool {
    match cm {
        ContextModel::Linear { state, .. } => state.closed,
        ContextModel::Keyed { buckets, .. } => any_closed(buckets),
    }
}

/// One timer tick at the context level.  A closed context ignores it.
pub open spec fn ctx_timer_step(cm: ContextModel, delta: u32) -> ContextModel {
    match cm {
        ContextModel::Linear { base, state } => ContextModel::Linear {
            base,
            state: timer_step(base.conditions, state, delta),
        },
        ContextModel::Keyed { base, buckets } => {
            if any_closed(buckets) {
                cm
            } else {
                ContextModel::Keyed { base, buckets: tick_buckets(base.conditions, buckets, delta) }
            }
        },
    }
}

/// One message delivery at the context level.  A keyed context routes
/// the message to the bucket of its sub-key, creating the bucket when
/// the message matches the conditions and no bucket carries the key
/// yet.
pub open spec fn ctx_accept_step(cm: ContextModel, m: Arc<Message>) -> ContextModel {
    match cm {
        ContextModel::Linear { base, state } => ContextModel::Linear {
            base,
            state: accept_step(base.conditions, state, m),
        },
        ContextModel::Keyed { base, buckets } => {
            if any_closed(buckets) {
                cm
            } else {
                let key = spec_sub_key(*m);
                let grown = if spec_find_key(buckets, key) >= 0 || !base.conditions.spec_matches(
                    *m,
                ) {
                    buckets
                } else {
                    buckets.push((key, spec_fresh()))
                };
                let k = spec_find_key(grown, key);
                if k < 0 {
                    ContextModel::Keyed { base, buckets: grown }
                } else {
                    ContextModel::Keyed {
                        base,
                        buckets: grown.update(
                            k,
                            (key, accept_step(base.conditions, grown[k].1, m)),
                        ),
                    }
                }
            }
        },
    }
}

/// What a context that closed in the current step emits: the linear
/// variant fires over its whole aggregation state, the keyed variant
/// over the first closed bucket.
pub open spec fn ctx_fire_on_close(cm: ContextModel) -> Option<MessageModel> {
    match cm {
        ContextModel::Linear { base, state } => base.spec_fire(state.msgs),
        ContextModel::Keyed { base, buckets } => {
            let k = first_closed(buckets);
            if k < 0 {
                None
            } else {
                base.spec_fire(buckets[k].1.msgs)
            }
        },
    }
}

/// A state whose flags can arise from the transition system: never
/// open and closed at once.
pub open spec fn ctx_consistent(cm: ContextModel) -> bool {
    match cm {
        ContextModel::Linear { state, .. } => !(state.opened && state.closed),
        ContextModel::Keyed { .. } => true,
    }
}

/// Openness is monotonic at the context level, for both variants: a
/// closed context is never open, and neither timer ticks nor message
/// deliveries change it at all — it can never reopen nor fire again.
pub proof fn lemma_ctx_closed_is_forever(cm: ContextModel, delta: u32, m: Arc<Message>)
    requires
        ctx_closed(cm),
        ctx_consistent(cm),
    ensures
        ctx_timer_step(cm, delta) == cm,
        ctx_accept_step(cm, m) == cm,
        !ctx_opened(cm),
{
}

/// A linear context: one message stream under one closing policy.
#[derive(Debug)]
pub struct LinearContext {
    pub base: BaseContext,
    pub state: State,
}

impl View for LinearContext {
    type V = ContextModel;

    open spec fn view(&self) -> ContextModel {
        ContextModel::Linear { base: self.base, state: self.state@ }
    }
}

impl LinearContext {
    pub fn new(uuid: String, conditions: Conditions) -> (c: LinearContext)
        ensures
            c.base.uuid == uuid,
            c.base.name is None,
            c.base.conditions == conditions,
            c.base.action is None,
            c.state@ == spec_fresh(),
    {
        LinearContext { base: BaseContextBuilder::new(uuid, conditions).build(), state: State::new() }
    }

    /// Dispatches one stimulus to the timer or message path.
    pub fn on_event(&mut self, event: Event) -> (r: Option<Vec<Response>>)
        ensures
            final(self)@ == (match event {
                Event::Timer(t) => ctx_timer_step(old(self)@, t.0),
                Event::Message(m) => ctx_accept_step(old(self)@, m),
            }),
            r is Some <==> (!ctx_closed(old(self)@) && ctx_closed(final(self)@)),
            r is Some ==> responses_match(r->0@, ctx_fire_on_close(final(self)@)),
    {
        match event {
            Event::Timer(t) => self.on_timer(&t),
            Event::Message(m) => self.on_message(m),
        }
    }

    /// Advances the context's clock; fires the action when this tick
    /// closes the context.
    pub fn on_timer(&mut self, event: &TimerEvent) -> (r: Option<Vec<Response>>)
        ensures
            final(self)@ == ctx_timer_step(old(self)@, event.0),
            r is Some <==> (!ctx_closed(old(self)@) && ctx_closed(final(self)@)),
            r is Some ==> responses_match(r->0@, ctx_fire_on_close(final(self)@)),
    {
        let was_closed = self.state.closed;
        self.state.on_timer(event, &self.base.conditions);
        if !was_closed && self.state.closed {
            Some(self.base.execute_actions(&self.state))
        } else {
            None
        }
    }

    /// Delivers one shared message; fires the action when this
    /// acceptance closes the context.
    pub fn on_message(&mut self, event: Arc<Message>) -> (r: Option<Vec<Response>>)
        ensures
            final(self)@ == ctx_accept_step(old(self)@, event),
            r is Some <==> (!ctx_closed(old(self)@) && ctx_closed(final(self)@)),
            r is Some ==> responses_match(r->0@, ctx_fire_on_close(final(self)@)),
    {
        let was_closed = self.state.closed;
        self.state.on_message(event, &self.base.conditions);
        if !was_closed && self.state.closed {
            Some(self.base.execute_actions(&self.state))
        } else {
            None
        }
    }

    pub fn is_open(&self) -> (r: bool)
        ensures
            r == ctx_opened(self@),
    {
        self.state.is_open()
    }

    pub fn patterns(&self) -> (p: &Vec<String>)
        ensures
            p == &self.base.conditions.patterns,
    {
        &self.base.conditions.patterns
    }

    pub fn uuid(&self) -> (u: &String)
        ensures
            u == &self.base.uuid,
    {
        &self.base.uuid
    }
}

/// A keyed context: messages are demultiplexed into per-key buckets
/// that age independently; any bucket reaching a limit closes the whole
/// context.
#[derive(Debug)]
pub struct MapContext {
    pub base: BaseContext,
    pub map: Vec<(String, State)>,
}

impl View for MapContext {
    type V = ContextModel;

    open spec fn view(&self) -> ContextModel {
        ContextModel::Keyed { base: self.base, buckets: buckets_view(self.map@) }
    }
}

impl MapContext {
    pub fn new(uuid: String, conditions: Conditions) -> (c: MapContext)
        ensures
            c.base.uuid == uuid,
            c.base.name is None,
            c.base.conditions == conditions,
            c.base.action is None,
            c.map@ == Seq::<(String, State)>::empty(),
    {
        MapContext { base: BaseContextBuilder::new(uuid, conditions).build(), map: Vec::new() }
    }

    /// Some bucket has closed, so the whole context counts as closed.
    fn has_closed_bucket(&self) -> (r: bool)
        ensures
            r == any_closed(buckets_view(self.map@)),
    {
        let ghost buckets = buckets_view(self.map@);
        let mut i: usize = 0;
        while i < self.map.len()
            invariant
                0 <= i <= self.map@.len(),
                buckets == buckets_view(self.map@),
                forall|j: int| 0 <= j < i ==> !buckets[j].1.closed,
            decreases self.map@.len() - i,
        {
            if self.map[i].1.closed {
                proof {
                    assert(buckets[i as int].1.closed);
                }
                return true;
            }
            i = i + 1;
        }
        false
    }

    /// The first bucket keyed by `key`, if any.
    fn find_bucket(&self, key: &String) -> (r: Option<usize>)
        ensures
            match r {
                Some(i) => i < self.map@.len() && buckets_view(self.map@)[i as int].0 == key@
                    && spec_find_key(buckets_view(self.map@), key@) == i,
                None => spec_find_key(buckets_view(self.map@), key@) == -1 && forall|j: int|
                    0 <= j < self.map@.len() ==> buckets_view(self.map@)[j].0 != key@,
            },
    {
        let ghost buckets = buckets_view(self.map@);
        let mut i: usize = 0;
        while i < self.map.len()
            invariant
                0 <= i <= self.map@.len(),
                buckets == buckets_view(self.map@),
                forall|j: int| 0 <= j < i ==> buckets[j].0 != key@,
            decreases self.map@.len() - i,
        {
            if self.map[i].0 == *key {
                proof {
                    assert(buckets[i as int].0 == key@);
                    lemma_find_key_at(buckets, key@, i as int);
                }
                return Some(i);
            }
            i = i + 1;
        }
        proof {
            lemma_find_key_absent(buckets, key@);
        }
        None
    }

    /// Advances every bucket's clock; fires the action when this tick
    /// closes the context, over the first closed bucket.
    pub fn on_timer(&mut self, event: &TimerEvent) -> (r: Option<Vec<Response>>)
        ensures
            final(self)@ == ctx_timer_step(old(self)@, event.0),
            r is Some <==> (!ctx_closed(old(self)@) && ctx_closed(final(self)@)),
            r is Some ==> responses_match(r->0@, ctx_fire_on_close(final(self)@)),
    {
        if self.has_closed_bucket() {
            return None;
        }
        let ghost old_buckets = buckets_view(old(self).map@);
        let mut i: usize = 0;
        while i < self.map.len()
            invariant
                0 <= i <= self.map@.len(),
                self.map@.len() == old(self).map@.len(),
                self.base == old(self).base,
                old_buckets == buckets_view(old(self).map@),
                forall|k: int| 0 <= k < i ==> (#[trigger] self.map@[k]).0@ == old_buckets[k].0
                    && self.map@[k].1@ == timer_step(
                    old(self).base.conditions,
                    old_buckets[k].1,
                    event.0,
                ),
                forall|k: int| i <= k < self.map@.len() ==> self.map@[k] == old(self).map@[k],
            decreases self.map@.len() - i,
        {
            let b: &mut (String, State) = &mut self.map[i];
            b.1.on_timer(event, &self.base.conditions);
            proof {
                assert(old_buckets[i as int] == (
                    old(self).map@[i as int].0@,
                    old(self).map@[i as int].1@,
                ));
                assert(self.map@[i as int].0 == old(self).map@[i as int].0);
                assert(self.map@[i as int].1@ == timer_step(
                    old(self).base.conditions,
                    old_buckets[i as int].1,
                    event.0,
                ));
            }
            i = i + 1;
        }
        proof {
            assert(buckets_view(self.map@) =~= tick_buckets(
                old(self).base.conditions,
                old_buckets,
                event.0,
            ));
        }
        let fired = self.first_closed_bucket();
        match fired {
            Some(i) => {
                proof {
                    assert(ctx_closed(self@));
                }
                Some(self.base.execute_actions(&self.map[i].1))
            },
            None => None,
        }
    }

    /// The first closed bucket, if any.
    fn first_closed_bucket(&self) -> (r: Option<usize>)
        ensures
            match r {
                Some(i) => i < self.map@.len() && buckets_view(self.map@)[i as int].1.closed
                    && first_closed(buckets_view(self.map@)) == i,
                None => first_closed(buckets_view(self.map@)) == -1 && !any_closed(
                    buckets_view(self.map@),
                ),
            },
    {
        let ghost buckets = buckets_view(self.map@);
        let mut i: usize = 0;
        while i < self.map.len()
            invariant
                0 <= i <= self.map@.len(),
                buckets == buckets_view(self.map@),
                forall|j: int| 0 <= j < i ==> !buckets[j].1.closed,
            decreases self.map@.len() - i,
        {
            if self.map[i].1.closed {
                proof {
                    assert(buckets[i as int].1.closed);
                    lemma_first_closed_at(buckets, i as int);
                }
                return Some(i);
            }
            i = i + 1;
        }
        proof {
            lemma_first_closed_none(buckets);
        }
        None
    }

    /// Routes one shared message to the bucket of its sub-key; fires
    /// the action when this acceptance closes the context.
    pub fn on_message(&mut self, event: Arc<Message>) -> (r: Option<Vec<Response>>)
        ensures
            final(self)@ == ctx_accept_step(old(self)@, event),
            r is Some <==> (!ctx_closed(old(self)@) && ctx_closed(final(self)@)),
            r is Some ==> responses_match(r->0@, ctx_fire_on_close(final(self)@)),
    {
        if self.has_closed_bucket() {
            return None;
        }
        let key: String = sub_key(&event).clone();
        let ghost old_buckets = buckets_view(old(self).map@);
        let idx: usize = match self.find_bucket(&key) {
            Some(i) => i,
            None => {
                if self.base.conditions.matches_message(&event) {
                    self.map.push((key.clone(), State::new()));
                    proof {
                        assert(buckets_view(self.map@) =~= old_buckets.push(
                            (key@, spec_fresh()),
                        ));
                        assert(forall|j: int| 0 <= j < old_buckets.len()
                            ==> buckets_view(self.map@)[j].0 != key@);
                        lemma_find_key_at(buckets_view(self.map@), key@, old_buckets.len() as int);
                    }
                    self.map.len() - 1
                } else {
                    return None;
                }
            },
        };
        let ghost grown = buckets_view(self.map@);
        let b: &mut (String, State) = &mut self.map[idx];
        b.1.on_message(event, &self.base.conditions);
        proof {
            assert(buckets_view(self.map@) =~= grown.update(
                idx as int,
                (key@, accept_step(old(self).base.conditions, grown[idx as int].1, event)),
            ));
        }
        let closed_now = {
            let after: &(String, State) = &self.map[idx];
            after.1.closed
        };
        if closed_now {
            proof {
                assert(forall|j: int| 0 <= j < buckets_view(self.map@).len() && j != idx
                    ==> !#[trigger] buckets_view(self.map@)[j].1.closed);
                lemma_first_closed_at(buckets_view(self.map@), idx as int);
            }
            Some(self.base.execute_actions(&self.map[idx].1))
        } else {
            proof {
                assert(forall|j: int| 0 <= j < buckets_view(self.map@).len()
                    ==> !#[trigger] buckets_view(self.map@)[j].1.closed);
            }
            None
        }
    }

    pub fn is_open(&self) -> (r: bool)
        ensures
            r == ctx_opened(self@),
    {
        let ghost buckets = buckets_view(self.map@);
        let mut found_open = false;
        let mut i: usize = 0;
        while i < self.map.len()
            invariant
                0 <= i <= self.map@.len(),
                buckets == buckets_view(self.map@),
                found_open == exists|j: int| 0 <= j < i && buckets[j].1.opened,
                forall|j: int| 0 <= j < i ==> !buckets[j].1.closed,
            decreases self.map@.len() - i,
        {
            if self.map[i].1.closed {
                proof {
                    assert(buckets[i as int].1.closed);
                }
                return false;
            }
            if self.map[i].1.opened {
                proof {
                    assert(buckets[i as int].1.opened);
                }
                found_open = true;
            }
            i = i + 1;
        }
        found_open
    }

    pub fn patterns(&self) -> (p: &Vec<String>)
        ensures
            p == &self.base.conditions.patterns,
    {
        &self.base.conditions.patterns
    }

    pub fn uuid(&self) -> (u: &String)
        ensures
            u == &self.base.uuid,
    {
        &self.base.uuid
    }
}

/// A correlation unit: both variants answer the same capability
/// contract (`on_message`, `on_timer`, `is_open`).
#[derive(Debug)]
pub enum Context {
    Linear(LinearContext),
    Keyed(MapContext),
}

impl View for Context {
    type V = ContextModel;

    open spec fn view(&self) -> ContextModel {
        match self {
            Context::Linear(c) => c@,
            Context::Keyed(c) => c@,
        }
    }
}

impl Context {
    /// A fresh linear context under the given conditions, with a fresh
    /// identifier.
    pub fn new_linear(conditions: Conditions) -> (c: Context)
        ensures
            c@ is Linear,
            ctx_base(c@).conditions == conditions,
            ctx_base(c@).name is None,
            ctx_base(c@).action is None,
            c@ matches ContextModel::Linear { state, .. } && state == spec_fresh(),
    {
        Context::Linear(LinearContext::new(new_uuid(), conditions))
    }

    /// A fresh keyed context under the given conditions, with a fresh
    /// identifier.
    pub fn new_map(conditions: Conditions) -> (c: Context)
        ensures
            c@ is Keyed,
            ctx_base(c@).conditions == conditions,
            ctx_base(c@).name is None,
            ctx_base(c@).action is None,
            c@ matches ContextModel::Keyed { buckets, .. } && buckets == Seq::<
                (Seq<char>, StateModel),
            >::empty(),
    {
        Context::Keyed(MapContext::new(new_uuid(), conditions))
    }

    pub fn on_timer(&mut self, event: &TimerEvent) -> (r: Option<Vec<Response>>)
        ensures
            final(self)@ == ctx_timer_step(old(self)@, event.0),
            r is Some <==> (!ctx_closed(old(self)@) && ctx_closed(final(self)@)),
            r is Some ==> responses_match(r->0@, ctx_fire_on_close(final(self)@)),
    {
        match self {
            Context::Linear(context) => context.on_timer(event),
            Context::Keyed(context) => context.on_timer(event),
        }
    }

    pub fn on_message(&mut self, event: Arc<Message>) -> (r: Option<Vec<Response>>)
        ensures
            final(self)@ == ctx_accept_step(old(self)@, event),
            r is Some <==> (!ctx_closed(old(self)@) && ctx_closed(final(self)@)),
            r is Some ==> responses_match(r->0@, ctx_fire_on_close(final(self)@)),
    {
        match self {
            Context::Linear(context) => context.on_message(event),
            Context::Keyed(context) => context.on_message(event),
        }
    }

    pub fn is_open(&self) -> (r: bool)
        ensures
            r == ctx_opened(self@),
    {
        match self {
            Context::Linear(context) => context.is_open(),
            Context::Keyed(context) => context.is_open(),
        }
    }
}

} // verus!
