//! Closing conditions: the immutable policy attached to a correlation
//! context, deciding when the context must close.

use vstd::prelude::*;
use crate::message::Message;

verus! {

/// The correlation policy of a context template.
///
/// `patterns` lists the identifiers a message must carry to be accepted.
/// The three closing policies are combined with a logical OR: the context
/// closes the instant any configured one triggers.
///
/// * `timeout` — maximum ticks from the opening of the context,
/// * `max_size` — optional cap on the number of accepted messages,
/// * `renew_timeout` — optional maximum ticks since the last accepted
///   message.
#[derive(Debug)]
pub struct Conditions {
    pub timeout: u32,
    pub renew_timeout: Option<u32>,
    pub max_size: Option<usize>,
    pub patterns: Vec<String>,
}

impl Conditions {
    /// `key` occurs in the pattern list.
    pub open spec fn spec_has_pattern(&self, key: Seq<char>) -> bool {
        exists|i: int| 0 <= i < self.patterns@.len() && self.patterns@[i]@ == key
    }

    /// One of the message's identifiers (its uuid, or its name when it has
    /// one) occurs in the pattern list.
    pub open spec fn spec_matches(&self, message: Message) -> bool {
        self.spec_has_pattern(message.uuid@) || (message.name is Some
            && self.spec_has_pattern(message.name->0@))
    }

    /// The OR of the configured closing policies, over the aggregation
    /// numbers of a context: the count of accepted messages, the ticks
    /// since opening, and the ticks since the last accepted message.
    pub open spec fn spec_is_closing(&self, count: nat, since_open: u32, since_last: u32) -> bool {
        since_open >= self.timeout
        || (self.max_size is Some && count >= self.max_size->0)
        || (self.renew_timeout is Some && since_last >= self.renew_timeout->0)
    }

    /// `key` occurs in the pattern list.
    pub fn has_pattern(&self, key: &String) -> (r: bool)
        ensures
            r == self.spec_has_pattern(key@),
    {
        let mut i: usize = 0;
        while i < self.patterns.len()
            invariant
                0 <= i <= self.patterns@.len(),
                forall|j: int| 0 <= j < i ==> self.patterns@[j]@ != key@,
            decreases self.patterns@.len() - i,
        {
            if self.patterns[i] == *key {
                return true;
            }
            i = i + 1;
        }
        false
    }

    /// The message carries one of the listed patterns.
    pub fn matches_message(&self, message: &Message) -> (r: bool)
        ensures
            r == self.spec_matches(*message),
    {
        if self.has_pattern(&message.uuid) {
            return true;
        }
        match &message.name {
            Some(name) => self.has_pattern(name),
            None => false,
        }
    }

    /// Evaluates the closing policies on the given aggregation numbers.
    pub fn is_closing(&self, count: usize, since_open: u32, since_last: u32) -> (r: bool)
        ensures
            r == self.spec_is_closing(count as nat, since_open, since_last),
    {
        if since_open >= self.timeout {
            return true;
        }
        let size_reached = match self.max_size {
            Some(max) => count >= max,
            None => false,
        };
        if size_reached {
            return true;
        }
        match self.renew_timeout {
            Some(renew) => since_last >= renew,
            None => false,
        }
    }
}

/// Builds a `Conditions` value; the overall timeout is mandatory, the
/// other policies stay unset unless given.
pub struct Builder {
    pub timeout: u32,
    pub renew_timeout: Option<u32>,
    pub max_size: Option<usize>,
    pub patterns: Vec<String>,
}

impl Builder {
    pub fn new(timeout: u32) -> (b: Builder)
        ensures
            b.timeout == timeout,
            b.renew_timeout is None,
            b.max_size is None,
            b.patterns@ == Seq::<String>::empty(),
    {
        Builder { timeout, renew_timeout: None, max_size: None, patterns: Vec::new() }
    }

    pub fn max_size(self, max_size: usize) -> (b: Builder)
        ensures
            b.timeout == self.timeout,
            b.renew_timeout == self.renew_timeout,
            b.max_size == Some(max_size),
            b.patterns == self.patterns,
    {
        Builder { max_size: Some(max_size), ..self }
    }

    pub fn renew_timeout(self, renew_timeout: u32) -> (b: Builder)
        ensures
            b.timeout == self.timeout,
            b.renew_timeout == Some(renew_timeout),
            b.max_size == self.max_size,
            b.patterns == self.patterns,
    {
        Builder { renew_timeout: Some(renew_timeout), ..self }
    }

    pub fn patterns(self, patterns: Vec<String>) -> (b: Builder)
        ensures
            b.timeout == self.timeout,
            b.renew_timeout == self.renew_timeout,
            b.max_size == self.max_size,
            b.patterns == patterns,
    {
        Builder { patterns, ..self }
    }

    pub fn build(self) -> (c: Conditions)
        ensures
            c.timeout == self.timeout,
            c.renew_timeout == self.renew_timeout,
            c.max_size == self.max_size,
            c.patterns == self.patterns,
    {
        let Builder { timeout, renew_timeout, max_size, patterns } = self;
        Conditions { timeout, renew_timeout, max_size, patterns }
    }
}

} // verus!
