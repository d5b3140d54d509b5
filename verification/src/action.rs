//! The action layer: when a context closes, an optional message action
//! renders a correlated output message from the accumulated state by
//! substituting the collected key/value pairs into templates.

use vstd::prelude::*;
use std::sync::Arc;
use crate::message::{Message, MessageModel, opt_view, pairs_view, spec_upsert, lemma_upsert_absent,
    lemma_upsert_found};
use crate::state::State;

verus! {

#[verifier::external_type_specification]
#[verifier::external_body]
pub struct ExRenderError(handlebars::RenderError);

/// What the templating engine makes of a template string applied to a
/// map of string values: a function of the template and the values
/// alone; `None` stands for a render failure.
pub uninterp spec fn render_of(template: Seq<char>, data: Seq<(Seq<char>, Seq<char>)>) -> Option<
    Seq<char>,
>;

/// Relies on handlebars::Handlebars::render_template: rendering a
/// template string against string-valued data with a fresh default
/// registry is deterministic in the template and the data, and an `Err`
/// outcome is a render failure of that same pair.
#[verifier::external_body]
fn render_template(template: &str, data: &Vec<(String, String)>) -> (r: Result<
    String,
    handlebars::RenderError,
>)
    ensures
        r is Ok <==> render_of(template@, pairs_view(data@)) is Some,
        r is Ok ==> r->Ok_0@ == render_of(template@, pairs_view(data@))->0,
{
    let map: std::collections::BTreeMap<&str, &str> = data.iter().map(
        |p: &(String, String)| (p.0.as_str(), p.1.as_str()),
    ).collect();
    let registry = handlebars::Handlebars::new();
    registry.render_template(template, &map)
}

/// The decimal digit characters of `n`, most significant first.
pub open spec fn dec_digit(d: nat) -> char {
    if d == 0 {
        '0'
    } else if d == 1 {
        '1'
    } else if d == 2 {
        '2'
    } else if d == 3 {
        '3'
    } else if d == 4 {
        '4'
    } else if d == 5 {
        '5'
    } else if d == 6 {
        '6'
    } else if d == 7 {
        '7'
    } else if d == 8 {
        '8'
    } else {
        '9'
    }
}

/// The decimal rendering of `n`.
pub open spec fn dec_of(n: nat) -> Seq<char>
    decreases n,
{
    if n < 10 {
        seq![dec_digit(n)]
    } else {
        dec_of(n / 10).push(dec_digit(n % 10))
    }
}

/// Relies on the `Display` implementation of `usize`: `to_string`
/// yields exactly the decimal digits of the number.
#[verifier::external_body]
fn decimal_string(n: usize) -> (r: String)
    ensures
        r@ == dec_of(n as nat),
{
    n.to_string()
}

/// Sets `key` to `value` in the render data: replaces the value of the
/// first pair already carrying `key`, or appends a new pair.
fn upsert_pair(data: &mut Vec<(String, String)>, key: &str, value: &str)
    ensures
        pairs_view(final(data)@) == spec_upsert(pairs_view(old(data)@), key@, value@),
{
    let k = key.to_owned();
    let v = value.to_owned();
    let ghost pv = pairs_view(old(data)@);
    let mut i: usize = 0;
    while i < data.len()
        invariant
            0 <= i <= data@.len(),
            forall|j: int| 0 <= j < i ==> data@[j].0@ != key@,
            k@ == key@,
            v@ == value@,
            data@ == old(data)@,
            pv == pairs_view(old(data)@),
        decreases data@.len() - i,
    {
        let found: bool = data[i].0 == k;
        if found {
            proof {
                assert(pv[i as int] == (data@[i as int].0@, data@[i as int].1@));
                assert(forall|j: int| 0 <= j < i ==> pv[j].0 == data@[j].0@);
                lemma_upsert_found(pv, key@, value@, i as int);
            }
            data[i] = (k, v);
            proof {
                assert(pairs_view(data@) =~= pv.update(i as int, (key@, value@)));
            }
            return;
        }
        i = i + 1;
    }
    proof {
        assert(forall|j: int| 0 <= j < pv.len() ==> pv[j].0 == data@[j].0@);
        lemma_upsert_absent(pv, key@, value@);
    }
    data.push((k, v));
    proof {
        assert(pairs_view(data@) =~= pv.push((key@, value@)));
    }
}

/// Folds a message's pairs into the render data, first to last.
pub open spec fn spec_upsert_all(
    data: Seq<(Seq<char>, Seq<char>)>,
    pairs: Seq<(Seq<char>, Seq<char>)>,
) -> Seq<(Seq<char>, Seq<char>)>
    decreases pairs.len(),
{
    if pairs.len() == 0 {
        data
    } else {
        spec_upsert_all(spec_upsert(data, pairs[0].0, pairs[0].1), pairs.subrange(
            1,
            pairs.len() as int,
        ))
    }
}

/// The key/value pairs collected from the accumulated messages, in
/// acceptance order; a later message's value wins over an earlier one's
/// under the same key.
pub open spec fn spec_collected(msgs: Seq<Arc<Message>>) -> Seq<(Seq<char>, Seq<char>)>
    decreases msgs.len(),
{
    if msgs.len() == 0 {
        Seq::empty()
    } else {
        spec_upsert_all(spec_collected(msgs.drop_last()), msgs.last()@.values)
    }
}

/// The full render data of a closing context: the collected message
/// pairs and the synthetic `context.uuid`, `context.name` and
/// `context.len` entries.
pub open spec fn spec_render_data(
    ctx_uuid: Seq<char>,
    ctx_name: Option<Seq<char>>,
    msgs: Seq<Arc<Message>>,
) -> Seq<(Seq<char>, Seq<char>)> {
    let collected = spec_collected(msgs);
    let with_uuid = spec_upsert(collected, "context.uuid"@, ctx_uuid);
    let with_name = match ctx_name {
        Some(name) => spec_upsert(with_uuid, "context.name"@, name),
        None => with_uuid,
    };
    spec_upsert(with_name, "context.len"@, dec_of(msgs.len()))
}

/// Builds the render data of a closing context.
pub fn collect_render_data(state: &State, ctx_uuid: &String, ctx_name: &Option<String>) -> (data:
    Vec<(String, String)>)
    ensures
        pairs_view(data@) == spec_render_data(ctx_uuid@, opt_view(*ctx_name), state@.msgs),
{
    let ghost msgs = state@.msgs;
    let mut data: Vec<(String, String)> = Vec::new();
    let mut i: usize = 0;
    proof {
        assert(pairs_view(data@) =~= spec_collected(msgs.subrange(0, 0)));
    }
    while i < state.messages.len()
        invariant
            0 <= i <= state.messages@.len(),
            msgs == state.messages@,
            pairs_view(data@) == spec_collected(msgs.subrange(0, i as int)),
        decreases state.messages@.len() - i,
    {
        let ghost pairs = msgs[i as int]@.values;
        let mut j: usize = 0;
        proof {
            assert(pairs.subrange(0, pairs.len() as int) =~= pairs);
        }
        while j < state.messages[i].values.len()
            invariant
                msgs == state.messages@,
                0 <= i < msgs.len(),
                pairs == msgs[i as int]@.values,
                0 <= j <= pairs.len(),
                spec_upsert_all(pairs_view(data@), pairs.subrange(j as int, pairs.len() as int))
                    == spec_upsert_all(spec_collected(msgs.subrange(0, i as int)), pairs),
            decreases pairs.len() - j,
        {
            let p: &(String, String) = &state.messages[i].values[j];
            proof {
                assert(pairs[j as int] == (p.0@, p.1@));
            }
            upsert_pair(&mut data, p.0.as_str(), p.1.as_str());
            proof {
                assert(pairs.subrange(j as int, pairs.len() as int)[0] == pairs[j as int]);
                assert(pairs.subrange(j as int, pairs.len() as int).subrange(
                    1,
                    pairs.len() - j as int,
                ) =~= pairs.subrange(j as int + 1, pairs.len() as int));
            }
            j = j + 1;
        }
        proof {
            assert(pairs.subrange(pairs.len() as int, pairs.len() as int) =~= Seq::<
                (Seq<char>, Seq<char>),
            >::empty());
            let prefix = msgs.subrange(0, i as int + 1);
            assert(prefix.drop_last() =~= msgs.subrange(0, i as int));
            assert(prefix.last() == msgs[i as int]);
        }
        i = i + 1;
    }
    proof {
        assert(msgs.subrange(0, msgs.len() as int) =~= msgs);
    }
    upsert_pair(&mut data, "context.uuid", ctx_uuid.as_str());
    match ctx_name {
        Some(name) => upsert_pair(&mut data, "context.name", name.as_str()),
        None => (),
    }
    let len_string = decimal_string(state.messages.len());
    upsert_pair(&mut data, "context.len", len_string.as_str());
    data
}

/// Renders each (key, template) pair against the data; fails as soon as
/// one render fails.
pub open spec fn spec_render_values(
    templates: Seq<(Seq<char>, Seq<char>)>,
    data: Seq<(Seq<char>, Seq<char>)>,
) -> Option<Seq<(Seq<char>, Seq<char>)>>
    decreases templates.len(),
{
    if templates.len() == 0 {
        Some(Seq::empty())
    } else {
        match render_of(templates[0].1, data) {
            None => None,
            Some(v) => match spec_render_values(
                templates.subrange(1, templates.len() as int),
                data,
            ) {
                None => None,
                Some(rest) => Some(seq![(templates[0].0, v)] + rest),
            },
        }
    }
}

/// The output of a message action on a closing context: `None` when any
/// template fails to render, in which case no response is emitted.
pub open spec fn spec_action_output(
    action: MessageAction,
    ctx_uuid: Seq<char>,
    ctx_name: Option<Seq<char>>,
    msgs: Seq<Arc<Message>>,
) -> Option<MessageModel> {
    let data = spec_render_data(ctx_uuid, ctx_name, msgs);
    match render_of(action.message@, data) {
        None => None,
        Some(text) => match spec_render_values(pairs_view(action.values@), data) {
            None => None,
            Some(vals) => Some(
                MessageModel {
                    uuid: action.uuid@,
                    name: opt_view(action.name),
                    message: text,
                    values: vals,
                },
            ),
        },
    }
}

/// The configured action of a context template: the identity of the
/// correlated message it emits, the template of the message text, and
/// one template per additional key/value pair.
#[derive(Debug)]
pub struct MessageAction {
    pub uuid: String,
    pub name: Option<String>,
    pub message: String,
    pub values: Vec<(String, String)>,
}

impl MessageAction {
    pub fn new(uuid: String, name: Option<String>, message: String, values: Vec<(String, String)>)
        -> (a: MessageAction)
        ensures
            a.uuid == uuid,
            a.name == name,
            a.message == message,
            a.values == values,
    {
        MessageAction { uuid, name, message, values }
    }

    /// Renders the correlated message for a closing context.  A failed
    /// render yields `None`: the failure is never retried and the
    /// closing is not rolled back.
    pub fn execute(&self, state: &State, ctx_uuid: &String, ctx_name: &Option<String>) -> (r:
        Option<MessageResponse>)
        ensures
            r is Some <==> spec_action_output(*self, ctx_uuid@, opt_view(*ctx_name), state@.msgs)
                is Some,
            r is Some ==> r->0.message@ == spec_action_output(
                *self,
                ctx_uuid@,
                opt_view(*ctx_name),
                state@.msgs,
            )->0,
    {
        let data = collect_render_data(state, ctx_uuid, ctx_name);
        let ghost dv = pairs_view(data@);
        let text = match render_template(self.message.as_str(), &data) {
            Ok(text) => text,
            Err(_) => {
                return None;
            },
        };
        let ghost tpls = pairs_view(self.values@);
        let mut rendered: Vec<(String, String)> = Vec::new();
        let mut i: usize = 0;
        proof {
            assert(tpls.subrange(0, tpls.len() as int) =~= tpls);
            assert(pairs_view(rendered@) =~= Seq::<(Seq<char>, Seq<char>)>::empty());
            match spec_render_values(tpls, dv) {
                None => (),
                Some(rest) => {
                    assert(pairs_view(rendered@) + rest =~= rest);
                },
            }
        }
        while i < self.values.len()
            invariant
                0 <= i <= self.values@.len(),
                tpls == pairs_view(self.values@),
                dv == pairs_view(data@),
                dv == spec_render_data(ctx_uuid@, opt_view(*ctx_name), state@.msgs),
                text@ == render_of(self.message@, dv)->0,
                render_of(self.message@, dv) is Some,
                spec_render_values(tpls, dv) == (match spec_render_values(
                    tpls.subrange(i as int, tpls.len() as int),
                    dv,
                ) {
                    None => None::<Seq<(Seq<char>, Seq<char>)>>,
                    Some(rest) => Some(pairs_view(rendered@) + rest),
                }),
            decreases self.values@.len() - i,
        {
            let ghost suffix = tpls.subrange(i as int, tpls.len() as int);
            proof {
                assert(suffix[0] == tpls[i as int]);
                assert(tpls[i as int] == (self.values@[i as int].0@, self.values@[i as int].1@));
                assert(suffix.subrange(1, suffix.len() as int) =~= tpls.subrange(
                    i as int + 1,
                    tpls.len() as int,
                ));
            }
            let entry: &(String, String) = &self.values[i];
            let value = match render_template(entry.1.as_str(), &data) {
                Ok(value) => value,
                Err(_) => {
                    proof {
                        assert(render_of(suffix[0].1, dv) is None);
                        assert(spec_render_values(suffix, dv) is None);
                    }
                    return None;
                },
            };
            let key = entry.0.clone();
            let ghost before = pairs_view(rendered@);
            rendered.push((key, value));
            proof {
                assert(pairs_view(rendered@) =~= before.push((entry.0@, value@)));
                match spec_render_values(tpls.subrange(i as int + 1, tpls.len() as int), dv) {
                    None => (),
                    Some(rest) => {
                        assert(before.push((entry.0@, value@)) + rest =~= before + (seq![
                            (entry.0@, value@),
                        ] + rest));
                    },
                }
            }
            i = i + 1;
        }
        proof {
            assert(tpls.subrange(tpls.len() as int, tpls.len() as int) =~= Seq::<
                (Seq<char>, Seq<char>),
            >::empty());
            assert(pairs_view(rendered@) + Seq::<(Seq<char>, Seq<char>)>::empty() =~= pairs_view(
                rendered@,
            ));
        }
        let name = match &self.name {
            Some(n) => Some(n.clone()),
            None => None,
        };
        let message = Message { uuid: self.uuid.clone(), name, message: text, values: rendered };
        Some(MessageResponse { message })
    }
}

/// A correlated message emitted for one closing context.
#[derive(Debug)]
pub struct MessageResponse {
    pub message: Message,
}

impl MessageResponse {
    pub fn message(&self) -> (m: &Message)
        ensures
            m == &self.message,
    {
        &self.message
    }
}

} // verus!
