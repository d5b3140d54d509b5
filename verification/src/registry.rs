//! The context registry: owns the live contexts, one slot per
//! configured template, routes messages and timer ticks to them, and
//! reaps each context exactly once when it closes — a reaped slot is
//! emptied in the same step that emits the context's responses, and a
//! well-formed registry never retains a closed context.

use vstd::prelude::*;
use std::sync::Arc;
use crate::action::MessageAction;
use crate::conditions::Conditions;
use crate::context::{Context, ContextModel, LinearContext, MapContext, BaseContextBuilder,
    ctx_base, ctx_closed, ctx_accept_step, ctx_timer_step, ctx_fire_on_close, new_uuid};
use crate::dispatcher::Response;
use crate::message::{Message, MessageModel, opt_view, pairs_view};
use crate::state::{State, spec_fresh};
use crate::timer::TimerEvent;

verus! {

/// The two conditions describe the same policy: equal limits and
/// pattern lists character for character.
pub open spec fn cond_equiv(a: Conditions, b: Conditions) -> bool {
    &&& a.timeout == b.timeout
    &&& a.renew_timeout == b.renew_timeout
    &&& a.max_size == b.max_size
    &&& a.patterns@.len() == b.patterns@.len()
    &&& forall|i: int| 0 <= i < a.patterns@.len() ==> a.patterns@[i]@ == b.patterns@[i]@
}

/// The two actions render identically: equal templates and identity,
/// character for character.
pub open spec fn action_equiv(a: MessageAction, b: MessageAction) -> bool {
    &&& a.uuid@ == b.uuid@
    &&& opt_view(a.name) == opt_view(b.name)
    &&& a.message@ == b.message@
    &&& pairs_view(a.values@) == pairs_view(b.values@)
}

pub open spec fn opt_action_equiv(a: Option<MessageAction>, b: Option<MessageAction>) -> bool {
    match (a, b) {
        (Option::None, Option::None) => true,
        (Option::Some(x), Option::Some(y)) => action_equiv(x, y),
        _ => false,
    }
}

/// Equivalent conditions match the same keys.
proof fn lemma_cond_equiv_pattern(a: Conditions, b: Conditions, key: Seq<char>)
    requires
        cond_equiv(a, b),
    ensures
        a.spec_has_pattern(key) == b.spec_has_pattern(key),
{
    if a.spec_has_pattern(key) {
        let i = choose|i: int| 0 <= i < a.patterns@.len() && a.patterns@[i]@ == key;
        assert(b.patterns@[i]@ == key);
    }
    if b.spec_has_pattern(key) {
        let i = choose|i: int| 0 <= i < b.patterns@.len() && b.patterns@[i]@ == key;
        assert(a.patterns@[i]@ == key);
    }
}

/// Equivalent conditions match the same messages.
proof fn lemma_cond_equiv_matches(a: Conditions, b: Conditions, m: Arc<Message>)
    requires
        cond_equiv(a, b),
    ensures
        a.spec_matches(*m) == b.spec_matches(*m),
{
    lemma_cond_equiv_pattern(a, b, m.uuid@);
    match m.name {
        Some(n) => lemma_cond_equiv_pattern(a, b, n@),
        None => (),
    }
}

fn clone_strings(v: &Vec<String>) -> (r: Vec<String>)
    ensures
        r@.len() == v@.len(),
        forall|i: int| 0 <= i < v@.len() ==> (#[trigger] r@[i])@ == v@[i]@,
{
    let mut r: Vec<String> = Vec::new();
    let mut i: usize = 0;
    while i < v.len()
        invariant
            0 <= i <= v@.len(),
            r@.len() == i,
            forall|j: int| 0 <= j < i ==> (#[trigger] r@[j])@ == v@[j]@,
        decreases v@.len() - i,
    {
        r.push(v[i].clone());
        i = i + 1;
    }
    r
}

fn clone_pairs(v: &Vec<(String, String)>) -> (r: Vec<(String, String)>)
    ensures
        pairs_view(r@) == pairs_view(v@),
{
    let mut r: Vec<(String, String)> = Vec::new();
    let mut i: usize = 0;
    while i < v.len()
        invariant
            0 <= i <= v@.len(),
            r@.len() == i,
            forall|j: int| 0 <= j < i ==> (#[trigger] r@[j]).0@ == v@[j].0@ && r@[j].1@ == v@[j].1@,
        decreases v@.len() - i,
    {
        let p: &(String, String) = &v[i];
        r.push((p.0.clone(), p.1.clone()));
        i = i + 1;
    }
    proof {
        assert(pairs_view(r@) =~= pairs_view(v@));
    }
    r
}

fn clone_opt_string(v: &Option<String>) -> (r: Option<String>)
    ensures
        opt_view(r) == opt_view(*v),
{
    match v {
        Some(s) => Some(s.clone()),
        None => None,
    }
}

fn clone_conditions(c: &Conditions) -> (r: Conditions)
    ensures
        cond_equiv(r, *c),
{
    Conditions {
        timeout: c.timeout,
        renew_timeout: c.renew_timeout,
        max_size: c.max_size,
        patterns: clone_strings(&c.patterns),
    }
}

fn clone_opt_action(a: &Option<MessageAction>) -> (r: Option<MessageAction>)
    ensures
        opt_action_equiv(r, *a),
{
    match a {
        Some(action) => Some(
            MessageAction {
                uuid: action.uuid.clone(),
                name: clone_opt_string(&action.name),
                message: action.message.clone(),
                values: clone_pairs(&action.values),
            },
        ),
        None => None,
    }
}

/// One context template: the conditions a context is created under,
/// which variant to create, and the name and action of the created
/// contexts.
#[derive(Debug)]
pub struct ContextConfig {
    pub conditions: Conditions,
    pub keyed: bool,
    pub name: Option<String>,
    pub action: Option<MessageAction>,
}

impl ContextConfig {
    pub fn new(conditions: Conditions, keyed: bool, name: Option<String>, action: Option<
        MessageAction,
    >) -> (c: ContextConfig)
        ensures
            c.conditions == conditions,
            c.keyed == keyed,
            c.name == name,
            c.action == action,
    {
        ContextConfig { conditions, keyed, name, action }
    }
}

/// The context's immutable base was created from the template.
pub open spec fn base_from_config(b: crate::context::BaseContext, cfg: ContextConfig) -> bool {
    &&& cond_equiv(b.conditions, cfg.conditions)
    &&& opt_view(b.name) == opt_view(cfg.name)
    &&& opt_action_equiv(b.action, cfg.action)
}

/// A context fresh off the template: right variant, base from the
/// template, nothing aggregated yet.
pub open spec fn spawned_from(cm: ContextModel, cfg: ContextConfig) -> bool {
    match cm {
        ContextModel::Linear { base, state } => !cfg.keyed && base_from_config(base, cfg)
            && state == spec_fresh(),
        ContextModel::Keyed { base, buckets } => cfg.keyed && base_from_config(base, cfg)
            && buckets == Seq::<(Seq<char>, crate::state::StateModel)>::empty(),
    }
}

/// Instantiates a fresh context from a template, with a fresh
/// identifier.
fn spawn_context(cfg: &ContextConfig) -> (c: Context)
    ensures
        spawned_from(c@, *cfg),
{
    let uuid = new_uuid();
    let conditions = clone_conditions(&cfg.conditions);
    let name = clone_opt_string(&cfg.name);
    let action = clone_opt_action(&cfg.action);
    let base = BaseContextBuilder::new(uuid, conditions).name(name).action(action).build();
    if cfg.keyed {
        let keyed = MapContext { base, map: Vec::new() };
        proof {
            assert(crate::context::buckets_view(keyed.map@) =~= Seq::<
                (Seq<char>, crate::state::StateModel),
            >::empty());
        }
        Context::Keyed(keyed)
    } else {
        Context::Linear(LinearContext { base, state: State::new() })
    }
}

/// The view of one registry slot.
pub open spec fn slot_view(s: Option<Context>) -> Option<ContextModel> {
    match s {
        Some(c) => Some(c@),
        None => None,
    }
}

/// What one slot does with a delivered message.  An occupied slot
/// delivers to its context, reaping it (and emitting its output) when
/// this delivery closes it.  An empty slot whose template matches the
/// message spawns a fresh context — with an identifier nothing further
/// is known of — which then accepts the message the same way.
pub open spec fn slot_message_step(
    cfg: ContextConfig,
    before: Option<ContextModel>,
    after: Option<ContextModel>,
    out: Option<MessageModel>,
    m: Arc<Message>,
) -> bool {
    match before {
        Some(cm) => {
            let cm2 = ctx_accept_step(cm, m);
            if !ctx_closed(cm) && ctx_closed(cm2) {
                after is None && out == ctx_fire_on_close(cm2)
            } else {
                after == Some(cm2) && out is None
            }
        },
        None => {
            if !cfg.conditions.spec_matches(*m) {
                after is None && out is None
            } else {
                exists|cm0: ContextModel|
                    {
                        &&& #[trigger] spawned_from(cm0, cfg)
                        &&& {
                            let cm2 = ctx_accept_step(cm0, m);
                            if ctx_closed(cm2) {
                                after is None && out == ctx_fire_on_close(cm2)
                            } else {
                                after == Some(cm2) && out is None
                            }
                        }
                    }
            }
        },
    }
}

/// What one slot does with a timer tick: an occupied slot advances its
/// context, reaping it (and emitting its output) when this tick closes
/// it.
pub open spec fn slot_timer_step(
    before: Option<ContextModel>,
    after: Option<ContextModel>,
    out: Option<MessageModel>,
    delta: u32,
) -> bool {
    match before {
        None => after is None && out is None,
        Some(cm) => {
            let cm2 = ctx_timer_step(cm, delta);
            if !ctx_closed(cm) && ctx_closed(cm2) {
                after is None && out == ctx_fire_on_close(cm2)
            } else {
                after == Some(cm2) && out is None
            }
        },
    }
}

/// The outputs actually emitted, in slot order.
pub open spec fn emitted(outs: Seq<Option<MessageModel>>) -> Seq<MessageModel>
    decreases outs.len(),
{
    if outs.len() == 0 {
        Seq::empty()
    } else {
        match outs[0] {
            Some(mm) => seq![mm] + emitted(outs.subrange(1, outs.len() as int)),
            None => emitted(outs.subrange(1, outs.len() as int)),
        }
    }
}

proof fn lemma_emitted_push(outs: Seq<Option<MessageModel>>, x: Option<MessageModel>)
    ensures
        x is Some ==> emitted(outs.push(x)) == emitted(outs).push(x->0),
        x is None ==> emitted(outs.push(x)) == emitted(outs),
    decreases outs.len(),
{
    if outs.len() == 0 {
        assert(outs.push(x)[0] == x);
        assert(outs.push(x).subrange(1, 1) =~= Seq::<Option<MessageModel>>::empty());
        assert(emitted(Seq::<Option<MessageModel>>::empty()) =~= Seq::<MessageModel>::empty());
        if x is Some {
            assert(emitted(outs.push(x)) =~= emitted(outs).push(x->0));
        } else {
            assert(emitted(outs.push(x)) =~= emitted(outs));
        }
    } else {
        lemma_emitted_push(outs.subrange(1, outs.len() as int), x);
        assert(outs.push(x)[0] == outs[0]);
        assert(outs.push(x).subrange(1, outs.len() as int + 1) =~= outs.subrange(
            1,
            outs.len() as int,
        ).push(x));
        if x is Some {
            assert(emitted(outs.push(x)) =~= emitted(outs).push(x->0));
        } else {
            assert(emitted(outs.push(x)) =~= emitted(outs));
        }
    }
}

/// Every response is a correlated message carrying the corresponding
/// output, in order.
pub open spec fn resp_seq_matches(rs: Seq<Response>, outs: Seq<MessageModel>) -> bool {
    &&& rs.len() == outs.len()
    &&& forall|i: int| 0 <= i < rs.len() ==> (#[trigger] rs[i]) is Message
        && rs[i]->Message_0.message@ == outs[i]
}

/// The whole effect of routing one message: slot by slot, with the
/// emitted responses in slot order.
pub open spec fn route_message_rel(
    before: ContextMap,
    after: ContextMap,
    m: Arc<Message>,
    rs: Seq<Response>,
) -> bool {
    &&& after.templates == before.templates
    &&& after.live@.len() == before.live@.len()
    &&& exists|outs: Seq<Option<MessageModel>>|
        {
            &&& #[trigger] emitted(outs).len() >= 0
            &&& outs.len() == before.live@.len()
            &&& forall|i: int| 0 <= i < outs.len() ==> slot_message_step(
                before.templates@[i],
                slot_view(before.live@[i]),
                slot_view(after.live@[i]),
                outs[i],
                m,
            )
            &&& resp_seq_matches(rs, emitted(outs))
        }
}

/// The whole effect of routing one timer tick.
pub open spec fn route_timer_rel(
    before: ContextMap,
    after: ContextMap,
    delta: u32,
    rs: Seq<Response>,
) -> bool {
    &&& after.templates == before.templates
    &&& after.live@.len() == before.live@.len()
    &&& exists|outs: Seq<Option<MessageModel>>|
        {
            &&& #[trigger] emitted(outs).len() >= 0
            &&& outs.len() == before.live@.len()
            &&& forall|i: int| 0 <= i < outs.len() ==> slot_timer_step(
                slot_view(before.live@[i]),
                slot_view(after.live@[i]),
                outs[i],
                delta,
            )
            &&& resp_seq_matches(rs, emitted(outs))
        }
}

/// A slot that emitted an output in a routing step holds no context
/// afterwards: firing and removal are one atomic step, so together
/// with well-formedness (a registry never retains a closed context)
/// and the monotonicity of closing, no context fires twice.
pub proof fn lemma_fired_slot_is_removed(
    cfg: ContextConfig,
    before: Option<ContextModel>,
    after: Option<ContextModel>,
    out: Option<MessageModel>,
    m: Arc<Message>,
    delta: u32,
)
    requires
        out is Some,
        slot_message_step(cfg, before, after, out, m) || slot_timer_step(
            before,
            after,
            out,
            delta,
        ),
    ensures
        after is None,
{
}

/// The counterpart of `lemma_fired_slot_is_removed`: a slot that still
/// holds a context after a routing step emitted nothing for it, and
/// what it holds has not closed.  Closing, firing and removal coincide
/// in one atomic step, so a reaped context never reappears in later
/// routing and no context ever fires twice.
pub proof fn lemma_live_slot_did_not_fire(
    cfg: ContextConfig,
    before: Option<ContextModel>,
    after: Option<ContextModel>,
    out: Option<MessageModel>,
    m: Arc<Message>,
    delta: u32,
)
    requires
        slot_message_step(cfg, before, after, out, m) || slot_timer_step(
            before,
            after,
            out,
            delta,
        ),
        before is Some ==> !ctx_closed(before->0),
        after is Some,
    ensures
        out is None,
        !ctx_closed(after->0),
{
}

/// The registry: one optional live context per configured template.
#[derive(Debug)]
pub struct ContextMap {
    pub templates: Vec<ContextConfig>,
    pub live: Vec<Option<Context>>,
}

impl ContextMap {
    /// Well-formedness: one slot per template, and no slot retains a
    /// closed context or one that belongs to another template.
    pub open spec fn wf(&self) -> bool {
        &&& self.live@.len() == self.templates@.len()
        &&& forall|i: int| 0 <= i < self.live@.len() ==> ((#[trigger] self.live@[i]) is Some ==> {
            &&& !ctx_closed(self.live@[i]->0@)
            &&& base_from_config(ctx_base(self.live@[i]->0@), self.templates@[i])
            &&& (self.live@[i]->0@ is Keyed <==> self.templates@[i].keyed)
        })
    }

    pub fn new(templates: Vec<ContextConfig>) -> (m: ContextMap)
        ensures
            m.wf(),
            m.templates == templates,
            m.live@.len() == templates@.len(),
            forall|i: int| 0 <= i < m.live@.len() ==> (#[trigger] m.live@[i]) is None,
    {
        let mut live: Vec<Option<Context>> = Vec::new();
        let mut i: usize = 0;
        while i < templates.len()
            invariant
                live@.len() == i,
                0 <= i <= templates@.len(),
                forall|j: int| 0 <= j < i ==> (#[trigger] live@[j]) is None,
            decreases templates@.len() - i,
        {
            live.push(None);
            i = i + 1;
        }
        ContextMap { templates, live }
    }

    /// Delivers one message: spawns contexts for matching templates
    /// with no live context, delivers to every live context, and reaps
    /// (with its responses) every context this delivery closes.
    pub fn route_message(&mut self, message: Arc<Message>) -> (rs: Vec<Response>)
        requires
            old(self).wf(),
        ensures
            final(self).wf(),
            route_message_rel(*old(self), *final(self), message, rs@),
    {
        let mut rs: Vec<Response> = Vec::new();
        let ghost mut outs: Seq<Option<MessageModel>> = Seq::empty();
        let mut i: usize = 0;
        proof {
            assert(emitted(outs) =~= Seq::<MessageModel>::empty());
        }
        while i < self.live.len()
            invariant
                old(self).wf(),
                self.wf(),
                self.templates == old(self).templates,
                self.live@.len() == old(self).live@.len(),
                0 <= i <= self.live@.len(),
                outs.len() == i,
                forall|k: int| i <= k < self.live@.len() ==> self.live@[k] == old(self).live@[k],
                forall|k: int| 0 <= k < i ==> slot_message_step(
                    self.templates@[k],
                    slot_view(old(self).live@[k]),
                    slot_view(#[trigger] self.live@[k]),
                    outs[k],
                    message,
                ),
                resp_seq_matches(rs@, emitted(outs)),
            decreases self.live@.len() - i,
        {
            let is_empty = self.live[i].is_none();
            if is_empty {
                if self.templates[i].conditions.matches_message(&message) {
                    let spawned = spawn_context(&self.templates[i]);
                    proof {
                        lemma_cond_equiv_matches(
                            ctx_base(spawned@).conditions,
                            self.templates@[i as int].conditions,
                            message,
                        );
                    }
                    self.live[i] = Some(spawned);
                }
            }
            let ghost pre_deliver = slot_view(self.live@[i as int]);
            let delivered: Option<Vec<Response>> = match &mut self.live[i] {
                Some(context) => context.on_message(message.clone()),
                None => None,
            };
            match delivered {
                Some(mut responses) => {
                    let ghost closed_model = ctx_accept_step(pre_deliver->0, message);
                    let ghost out = ctx_fire_on_close(closed_model);
                    let ghost rs0 = rs@;
                    let ghost outs0 = outs;
                    let ghost resp0 = responses@;
                    proof {
                        outs = outs.push(out);
                        lemma_emitted_push(outs0, out);
                    }
                    self.live[i] = None;
                    match responses.pop() {
                        Some(r) => rs.push(r),
                        None => (),
                    }
                    proof {
                        if out is Some {
                            assert(rs@ =~= rs0.push(resp0[0]));
                            assert(emitted(outs) =~= emitted(outs0).push(out->0));
                        } else {
                            assert(rs@ =~= rs0);
                            assert(emitted(outs) =~= emitted(outs0));
                        }
                        assert(resp_seq_matches(rs@, emitted(outs)));
                    }
                },
                None => {
                    let ghost outs0 = outs;
                    proof {
                        outs = outs.push(None);
                        lemma_emitted_push(outs0, None);
                        assert(emitted(outs) =~= emitted(outs0));
                    }
                },
            }
            i = i + 1;
        }
        rs
    }

    /// Delivers one timer tick to every live context and reaps (with
    /// its responses) every context this tick closes.
    pub fn route_timer(&mut self, event: &TimerEvent) -> (rs: Vec<Response>)
        requires
            old(self).wf(),
        ensures
            final(self).wf(),
            route_timer_rel(*old(self), *final(self), event.0, rs@),
    {
        let mut rs: Vec<Response> = Vec::new();
        let ghost mut outs: Seq<Option<MessageModel>> = Seq::empty();
        let mut i: usize = 0;
        proof {
            assert(emitted(outs) =~= Seq::<MessageModel>::empty());
        }
        while i < self.live.len()
            invariant
                old(self).wf(),
                self.wf(),
                self.templates == old(self).templates,
                self.live@.len() == old(self).live@.len(),
                0 <= i <= self.live@.len(),
                outs.len() == i,
                forall|k: int| i <= k < self.live@.len() ==> self.live@[k] == old(self).live@[k],
                forall|k: int| 0 <= k < i ==> slot_timer_step(
                    slot_view(old(self).live@[k]),
                    slot_view(#[trigger] self.live@[k]),
                    outs[k],
                    event.0,
                ),
                resp_seq_matches(rs@, emitted(outs)),
            decreases self.live@.len() - i,
        {
            let ghost pre_deliver = slot_view(self.live@[i as int]);
            let delivered: Option<Vec<Response>> = match &mut self.live[i] {
                Some(context) => context.on_timer(event),
                None => None,
            };
            match delivered {
                Some(mut responses) => {
                    let ghost closed_model = ctx_timer_step(pre_deliver->0, event.0);
                    let ghost out = ctx_fire_on_close(closed_model);
                    let ghost rs0 = rs@;
                    let ghost outs0 = outs;
                    let ghost resp0 = responses@;
                    proof {
                        outs = outs.push(out);
                        lemma_emitted_push(outs0, out);
                    }
                    self.live[i] = None;
                    match responses.pop() {
                        Some(r) => rs.push(r),
                        None => (),
                    }
                    proof {
                        if out is Some {
                            assert(rs@ =~= rs0.push(resp0[0]));
                            assert(emitted(outs) =~= emitted(outs0).push(out->0));
                        } else {
                            assert(rs@ =~= rs0);
                            assert(emitted(outs) =~= emitted(outs0));
                        }
                        assert(resp_seq_matches(rs@, emitted(outs)));
                    }
                },
                None => {
                    let ghost outs0 = outs;
                    proof {
                        outs = outs.push(None);
                        lemma_emitted_push(outs0, None);
                        assert(emitted(outs) =~= emitted(outs0));
                    }
                },
            }
            i = i + 1;
        }
        rs
    }
}

} // verus!
