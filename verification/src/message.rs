//! The unit being correlated: an immutable message with an identifier,
//! an optional name, a primary text and an ordered list of key/value
//! pairs.

use vstd::prelude::*;

verus! {

/// An event message.  Once built it is never mutated; contexts share it
/// by reference counting.
#[derive(Debug)]
pub struct Message {
    pub uuid: String,
    pub name: Option<String>,
    pub message: String,
    pub values: Vec<(String, String)>,
}

/// The mathematical content of a `Message`: every string as a sequence
/// of characters.
pub ghost struct MessageModel {
    pub uuid: Seq<char>,
    pub name: Option<Seq<char>>,
    pub message: Seq<char>,
    pub values: Seq<(Seq<char>, Seq<char>)>,
}

/// The view of an optional string.
pub open spec fn opt_view(name: Option<String>) -> Option<Seq<char>> {
    match name {
        Some(n) => Some(n@),
        None => None,
    }
}

/// The views of a list of string pairs.
pub open spec fn pairs_view(values: Seq<(String, String)>) -> Seq<(Seq<char>, Seq<char>)> {
    values.map_values(|p: (String, String)| (p.0@, p.1@))
}

impl View for Message {
    type V = MessageModel;

    open spec fn view(&self) -> MessageModel {
        MessageModel {
            uuid: self.uuid@,
            name: opt_view(self.name),
            message: self.message@,
            values: pairs_view(self.values@),
        }
    }
}

/// Replaces the value of the first pair carrying `key`, or appends the
/// pair when no existing pair carries it.
pub open spec fn spec_upsert(
    values: Seq<(Seq<char>, Seq<char>)>,
    key: Seq<char>,
    value: Seq<char>,
) -> Seq<(Seq<char>, Seq<char>)>
    decreases values.len(),
{
    if values.len() == 0 {
        seq![(key, value)]
    } else if values[0].0 == key {
        seq![(key, value)] + values.subrange(1, values.len() as int)
    } else {
        seq![values[0]] + spec_upsert(values.subrange(1, values.len() as int), key, value)
    }
}

/// When no pair carries the key, upserting appends.
pub proof fn lemma_upsert_absent(
    values: Seq<(Seq<char>, Seq<char>)>,
    key: Seq<char>,
    value: Seq<char>,
)
    requires
        forall|j: int| 0 <= j < values.len() ==> values[j].0 != key,
    ensures
        spec_upsert(values, key, value) == values.push((key, value)),
    decreases values.len(),
{
    if values.len() == 0 {
        assert(spec_upsert(values, key, value) =~= values.push((key, value)));
    } else {
        let rest = values.subrange(1, values.len() as int);
        lemma_upsert_absent(rest, key, value);
        assert(spec_upsert(values, key, value) =~= values.push((key, value)));
    }
}

/// When the first pair carrying the key stands at `i`, upserting updates
/// that position in place.
pub proof fn lemma_upsert_found(
    values: Seq<(Seq<char>, Seq<char>)>,
    key: Seq<char>,
    value: Seq<char>,
    i: int,
)
    requires
        0 <= i < values.len(),
        values[i].0 == key,
        forall|j: int| 0 <= j < i ==> values[j].0 != key,
    ensures
        spec_upsert(values, key, value) == values.update(i, (key, value)),
    decreases i,
{
    if i == 0 {
        assert(spec_upsert(values, key, value) =~= values.update(0, (key, value)));
    } else {
        let rest = values.subrange(1, values.len() as int);
        lemma_upsert_found(rest, key, value, i - 1);
        assert(spec_upsert(values, key, value) =~= values.update(i, (key, value)));
    }
}

/// Accumulates the parts of a `Message` and assembles it.
pub struct MessageBuilder {
    pub uuid: String,
    pub name: Option<String>,
    pub message: String,
    pub values: Vec<(String, String)>,
}

impl MessageBuilder {
    pub fn new(uuid: &str, message: &str) -> (b: MessageBuilder)
        ensures
            b.uuid@ == uuid@,
            b.name is None,
            b.message@ == message@,
            b.values@ == Seq::<(String, String)>::empty(),
    {
        MessageBuilder {
            uuid: uuid.to_owned(),
            name: None,
            message: message.to_owned(),
            values: Vec::new(),
        }
    }

    pub fn name(self, name: Option<String>) -> (b: MessageBuilder)
        ensures
            b.uuid == self.uuid,
            b.name == name,
            b.message == self.message,
            b.values == self.values,
    {
        MessageBuilder { name, ..self }
    }

    pub fn values(self, values: Vec<(String, String)>) -> (b: MessageBuilder)
        ensures
            b.uuid == self.uuid,
            b.name == self.name,
            b.message == self.message,
            b.values == values,
    {
        MessageBuilder { values, ..self }
    }

    /// Sets `key` to `value`: replaces the value of the first pair already
    /// carrying `key`, or appends a new pair.
    pub fn pair(self, key: &str, value: &str) -> (b: MessageBuilder)
        ensures
            b.uuid == self.uuid,
            b.name == self.name,
            b.message == self.message,
            pairs_view(b.values@) == spec_upsert(pairs_view(self.values@), key@, value@),
    {
        let MessageBuilder { uuid, name, message, mut values } = self;
        let k = key.to_owned();
        let v = value.to_owned();
        let ghost pv = pairs_view(self.values@);
        let mut i: usize = 0;
        while i < values.len()
            invariant
                0 <= i <= values@.len(),
                forall|j: int| 0 <= j < i ==> values@[j].0@ != key@,
                k@ == key@,
                v@ == value@,
                values@ == self.values@,
                pv == pairs_view(self.values@),
                uuid == self.uuid,
                name == self.name,
                message == self.message,
            decreases values@.len() - i,
        {
            let found: bool = values[i].0 == k;
            if found {
                proof {
                    assert(pv[i as int] == (values@[i as int].0@, values@[i as int].1@));
                    assert(forall|j: int| 0 <= j < i ==> pv[j].0 == values@[j].0@);
                    lemma_upsert_found(pv, key@, value@, i as int);
                }
                values[i] = (k, v);
                let b = MessageBuilder { uuid, name, message, values };
                proof {
                    assert(pairs_view(b.values@) =~= pv.update(i as int, (key@, value@)));
                }
                return b;
            }
            i = i + 1;
        }
        proof {
            assert(forall|j: int| 0 <= j < pv.len() ==> pv[j].0 == values@[j].0@);
            lemma_upsert_absent(pv, key@, value@);
        }
        values.push((k, v));
        let b = MessageBuilder { uuid, name, message, values };
        proof {
            assert(pairs_view(b.values@) =~= pv.push((key@, value@)));
        }
        b
    }

    pub fn build(self) -> (m: Message)
        ensures
            m.uuid == self.uuid,
            m.name == self.name,
            m.message == self.message,
            m.values == self.values,
    {
        let MessageBuilder { uuid, name, message, values } = self;
        Message { uuid, name, message, values }
    }
}

} // verus!
