//! Small text parsers: the shared parser base (a name) and the greedy
//! parser, which consumes the input up to the first occurrence of its
//! end string.

use vstd::prelude::*;
use vstd::string::StrSliceExecFns;
use crate::message::opt_view;

verus! {

/// What every parser carries: an optional name.
#[derive(Clone, Debug, Hash)]
pub struct ParserBase {
    pub name: Option<String>,
}

impl ParserBase {
    pub fn with_name(name: String) -> (b: ParserBase)
        ensures
            b.name == Some(name),
    {
        ParserBase { name: Some(name) }
    }

    pub fn new() -> (b: ParserBase)
        ensures
            b.name is None,
    {
        ParserBase { name: None }
    }

    pub fn name(&self) -> (r: Option<&str>)
        ensures
            match r {
                Some(s) => self.name is Some && s@ == self.name->0@,
                None => self.name is None,
            },
    {
        match &self.name {
            Some(n) => Some(n.as_str()),
            None => None,
        }
    }

    pub fn set_name(&mut self, name: String)
        ensures
            final(self).name == Some(name),
    {
        self.name = Some(name);
    }
}

/// The needle occurs in the haystack at position `i`.
pub open spec fn is_match_at(hay: Seq<char>, needle: Seq<char>, i: int) -> bool {
    0 <= i && i + needle.len() <= hay.len() && hay.subrange(i, i + needle.len()) == needle
}

/// The first occurrence of `needle` in `hay`, if any.
fn find_first(hay: &str, needle: &str) -> (r: Option<usize>)
    ensures
        match r {
            Some(i) => is_match_at(hay@, needle@, i as int) && forall|j: int|
                0 <= j < i ==> !is_match_at(hay@, needle@, j),
            None => forall|j: int| !is_match_at(hay@, needle@, j),
        },
{
    let hlen = hay.unicode_len();
    let nlen = needle.unicode_len();
    if nlen > hlen {
        return None;
    }
    if nlen == 0 {
        proof {
            assert(hay@.subrange(0, 0) =~= needle@);
        }
        return Some(0);
    }
    let mut i: usize = 0;
    while i <= hlen - nlen
        invariant
            hlen == hay@.len(),
            nlen == needle@.len(),
            1 <= nlen <= hlen,
            0 <= i <= hlen - nlen + 1,
            forall|j: int| 0 <= j < i ==> !is_match_at(hay@, needle@, j),
        decreases hlen - nlen + 1 - i,
    {
        let mut k: usize = 0;
        let mut matched: bool = true;
        while matched && k < nlen
            invariant
                hlen == hay@.len(),
                nlen == needle@.len(),
                nlen <= hlen,
                0 <= i <= hlen - nlen,
                0 <= k <= nlen,
                matched ==> forall|t: int| 0 <= t < k ==> hay@[i + t] == needle@[t],
                !matched ==> !is_match_at(hay@, needle@, i as int),
            decreases nlen - k,
        {
            let hc = hay.get_char(i + k);
            let nc = needle.get_char(k);
            if hc != nc {
                proof {
                    if is_match_at(hay@, needle@, i as int) {
                        assert(hay@.subrange(i as int, i + nlen)[k as int] == needle@[k as int]);
                    }
                }
                matched = false;
            }
            k = k + 1;
        }
        if matched {
            proof {
                assert(hay@.subrange(i as int, i + nlen) =~= needle@);
            }
            return Some(i);
        }
        i = i + 1;
    }
    proof {
        assert(forall|j: int| is_match_at(hay@, needle@, j) ==> 0 <= j <= hlen - nlen);
    }
    None
}

/// What a successful parse hands back: the consumed prefix and the
/// parser's name.
#[derive(Debug)]
pub struct ParseResult {
    pub parser_name: Option<String>,
    pub value: String,
}

impl ParseResult {
    pub fn value(&self) -> (v: &str)
        ensures
            v@ == self.value@,
    {
        self.value.as_str()
    }

    pub fn parser_name(&self) -> (n: &Option<String>)
        ensures
            n == &self.parser_name,
    {
        &self.parser_name
    }
}

/// A parser that consumes everything up to (and not including) the
/// first occurrence of its end string; without an end string it
/// consumes the whole input.
#[derive(Clone, Debug, Hash)]
pub struct GreedyParser {
    pub base: ParserBase,
    pub end_string: Option<String>,
}

impl GreedyParser {
    pub fn new(name: String) -> (p: GreedyParser)
        ensures
            p.base.name == Some(name),
            p.end_string is None,
    {
        GreedyParser { base: ParserBase::with_name(name), end_string: None }
    }

    pub fn from_str(name: &str, end_string: &str) -> (p: GreedyParser)
        ensures
            p.base.name is Some && p.base.name->0@ == name@,
            p.end_string is Some && p.end_string->0@ == end_string@,
    {
        let mut parser = GreedyParser::new(name.to_owned());
        parser.set_end_string(end_string.to_owned());
        parser
    }

    pub fn set_end_string(&mut self, end_string: String)
        ensures
            final(self).base == old(self).base,
            final(self).end_string == Some(end_string),
    {
        self.end_string = Some(end_string);
    }

    pub fn name(&self) -> (r: Option<&str>)
        ensures
            match r {
                Some(s) => self.base.name is Some && s@ == self.base.name->0@,
                None => self.base.name is None,
            },
    {
        self.base.name()
    }

    /// Parses `value`: without an end string the whole input matches;
    /// with one, the match is the prefix before its first occurrence,
    /// and an input without an occurrence does not match.
    pub fn parse(&self, value: &str) -> (r: Option<ParseResult>)
        ensures
            r is Some ==> opt_view(r->0.parser_name) == opt_view(self.base.name),
            self.end_string is None ==> r is Some && r->0.value@ == value@,
            self.end_string is Some ==> {
                &&& (r is Some <==> exists|i: int|
                    is_match_at(value@, self.end_string->0@, i))
                &&& (r is Some ==> exists|i: int|
                    {
                        &&& is_match_at(value@, self.end_string->0@, i)
                        &&& (forall|j: int| 0 <= j < i ==> !is_match_at(
                            value@,
                            self.end_string->0@,
                            j,
                        ))
                        &&& r->0.value@ == value@.subrange(0, i)
                    })
            },
    {
        let name = match &self.base.name {
            Some(n) => Some(n.clone()),
            None => None,
        };
        match &self.end_string {
            None => Some(ParseResult { parser_name: name, value: value.to_owned() }),
            Some(end_string) => {
                match find_first(value, end_string.as_str()) {
                    Some(i) => {
                        let prefix = value.substring_char(0, i);
                        Some(ParseResult { parser_name: name, value: prefix.to_owned() })
                    },
                    None => None,
                }
            },
        }
    }
}

} // verus!
