//! Selectors: a key selector followed by an optional value selector of the form
//! `filter(properties)[fragment]`.

use crate::key_expr::KeyExpr;
use crate::properties::{parse_props, Entries, ParseError, ParseErrorKind, Properties};
use crate::text::{find_any, find_char, index_of, index_of_any, slice, split, split_on, views};
use vstd::prelude::*;

verus! {

pub type ParseFailure = (ParseErrorKind, Seq<char>);

/// What a parsed value selector holds: filter, properties, fragment.
pub type ValueSelectorModel = (Seq<char>, Entries, Option<Seq<Seq<char>>>);

/// The fragment part: nothing, or one `[...]` that ends the text.
pub open spec fn parse_fragment_part(r: Seq<char>) -> Result<Option<Seq<Seq<char>>>, ParseFailure> {
    if r.len() == 0 {
        Ok(None)
    } else if r[0] == '[' {
        let k = index_of(r, ']');
        if k >= r.len() {
            Err((ParseErrorKind::UnclosedFragment, r))
        } else if k + 1 < r.len() {
            Err((ParseErrorKind::TrailingCharacters, r.skip(k + 1)))
        } else {
            Ok(Some(split_on(r.subrange(1, k), ';')))
        }
    } else {
        Err((ParseErrorKind::TrailingCharacters, r))
    }
}

/// The value selector that a text stands for. The filter runs up to the first
/// `(` or `[`; the properties sit between `(` and the next `)`; the fragment
/// between `[` and the next `]`, split on `;`. Both parts are optional.
pub open spec fn parse_value_selector(s: Seq<char>) -> Result<ValueSelectorModel, ParseFailure> {
    let i = index_of_any(s, '(', '[');
    let filter = s.take(i);
    let rest = s.skip(i);
    if rest.len() > 0 && rest[0] == '(' {
        let j = index_of(rest, ')');
        if j >= rest.len() {
            Err((ParseErrorKind::UnclosedProperties, rest))
        } else {
            match parse_props(rest.subrange(1, j)) {
                Err(e) => Err(e),
                Ok(p) => match parse_fragment_part(rest.skip(j + 1)) {
                    Err(e) => Err(e),
                    Ok(f) => Ok((filter, p, f)),
                },
            }
        }
    } else {
        match parse_fragment_part(rest) {
            Err(e) => Err(e),
            Ok(f) => Ok((filter, Seq::empty(), f)),
        }
    }
}

/// The parts of a value selector.
pub struct ValueSelector {
    filter: String,
    properties: Properties,
    fragment: Option<Vec<String>>,
}

impl View for ValueSelector {
    type V = ValueSelectorModel;

    closed spec fn view(&self) -> ValueSelectorModel {
        (
            self.filter@,
            self.properties@,
            match self.fragment {
                Some(f) => Some(views(f@)),
                None => None,
            },
        )
    }
}

fn parse_fragment(r: &str) -> (out: Result<Option<Vec<String>>, ParseError>)
    ensures
        match out {
            Ok(f) => parse_fragment_part(r@) == Ok::<Option<Seq<Seq<char>>>, ParseFailure>(
                match f {
                    Some(v) => Some(views(v@)),
                    None => None,
                },
            ),
            Err(e) => parse_fragment_part(r@) == Err::<Option<Seq<Seq<char>>>, ParseFailure>(e@),
        },
{
    let n = r.unicode_len();
    if n == 0 {
        return Ok(None);
    }
    if r.get_char(0) != '[' {
        let token = slice(r, 0, n);
        assert(token@ =~= r@);
        return Err(ParseError { kind: ParseErrorKind::TrailingCharacters, token });
    }
    let k = find_char(r, ']');
    if k == n {
        let token = slice(r, 0, n);
        assert(token@ =~= r@);
        return Err(ParseError { kind: ParseErrorKind::UnclosedFragment, token });
    }
    if k + 1 < n {
        let token = slice(r, k + 1, n);
        assert(token@ =~= r@.skip(k + 1));
        return Err(ParseError { kind: ParseErrorKind::TrailingCharacters, token });
    }
    let inner = slice(r, 1, k);
    Ok(Some(split(inner.as_str(), ';')))
}

impl ValueSelector {
    /// Parses `filter(properties)[fragment]`. Fails on a property without
    /// `=`, on a repeated property key, on an unclosed `(` or `[`, and on
    /// anything after the fragment.
    pub fn parse(s: &str) -> (r: Result<ValueSelector, ParseError>)
        ensures
            match r {
                Ok(v) => parse_value_selector(s@) == Ok::<ValueSelectorModel, ParseFailure>(v@),
                Err(e) => parse_value_selector(s@) == Err::<ValueSelectorModel, ParseFailure>(e@),
            },
    {
        let n = s.unicode_len();
        let i = find_any(s, '(', '[');
        let filter = slice(s, 0, i);
        let rest = slice(s, i, n);
        assert(filter@ =~= s@.take(i as int));
        assert(rest@ =~= s@.skip(i as int));
        let rn = rest.unicode_len();
        if rn > 0 && rest.as_str().get_char(0) == '(' {
            let j = find_char(rest.as_str(), ')');
            if j == rn {
                return Err(ParseError { kind: ParseErrorKind::UnclosedProperties, token: rest });
            }
            let inner = slice(rest.as_str(), 1, j);
            let properties = match Properties::parse(inner.as_str()) {
                Ok(p) => p,
                Err(e) => return Err(e),
            };
            let tail = slice(rest.as_str(), j + 1, rn);
            assert(tail@ =~= rest@.skip(j + 1));
            let fragment = match parse_fragment(tail.as_str()) {
                Ok(f) => f,
                Err(e) => return Err(e),
            };
            Ok(ValueSelector { filter, properties, fragment })
        } else {
            let fragment = match parse_fragment(rest.as_str()) {
                Ok(f) => f,
                Err(e) => return Err(e),
            };
            let properties = Properties::new();
            Ok(ValueSelector { filter, properties, fragment })
        }
    }

    /// The properties, taken out of the value selector.
    pub fn into_properties(self) -> (r: Properties)
        ensures
            r@ == self@.1,
    {
        self.properties
    }

    /// All characters before the first `(` or `[`.
    pub fn filter(&self) -> (r: &str)
        ensures
            r@ == self@.0,
    {
        self.filter.as_str()
    }

    /// The properties given between `(` and `)`; empty when there are none.
    pub fn properties(&self) -> (r: &Properties)
        ensures
            r@ == self@.1,
    {
        &self.properties
    }

    /// The fields given between `[` and `]`, if any.
    pub fn fragment(&self) -> (r: Option<&Vec<String>>)
        ensures
            match r {
                Some(v) => self@.2 == Some(views(v@)),
                None => self@.2 is None,
            },
    {
        match &self.fragment {
            Some(f) => Some(f),
            None => None,
        }
    }
}

/// A key selector and the raw value selector that followed it.
pub struct Selector {
    key_selector: KeyExpr,
    value_selector: String,
}

impl Selector {
    pub closed spec fn key_selector_spec(&self) -> KeyExpr {
        self.key_selector
    }

    pub closed spec fn value_selector_spec(&self) -> Seq<char> {
        self.value_selector@
    }

    /// Splits a selector text at its first `?`: what comes before is the key
    /// selector, what comes from the `?` on is the value selector (empty when
    /// there is no `?`).
    pub fn parse(s: &str) -> (r: Selector)
        ensures
            r.key_selector_spec().scope_spec() == 0,
            r.key_selector_spec().suffix_spec() == s@.take(index_of(s@, '?')),
            r.value_selector_spec() == s@.skip(index_of(s@, '?')),
    {
        let n = s.unicode_len();
        let i = find_char(s, '?');
        let key = slice(s, 0, i);
        let value_selector = slice(s, i, n);
        assert(key@ =~= s@.take(i as int));
        assert(value_selector@ =~= s@.skip(i as int));
        Selector { key_selector: KeyExpr::from_str(key.as_str()), value_selector }
    }

    /// A selector made of a key expression alone.
    pub fn from_key_expr(k: KeyExpr) -> (r: Selector)
        ensures
            r.key_selector_spec() == k,
            r.value_selector_spec() == Seq::<char>::empty(),
    {
        Selector { key_selector: k, value_selector: String::new() }
    }

    /// The part naming the selected keys: everything before `?`.
    pub fn key_selector(&self) -> (r: &KeyExpr)
        ensures
            *r == self.key_selector_spec(),
    {
        &self.key_selector
    }

    /// The part filtering the values: everything from `?` on.
    pub fn value_selector(&self) -> (r: &str)
        ensures
            r@ == self.value_selector_spec(),
    {
        self.value_selector.as_str()
    }

    /// Parses the value selector, leaving out its leading `?`.
    pub fn parse_value_selector(&self) -> (r: Result<ValueSelector, ParseError>)
        ensures
            match r {
                Ok(v) => parse_value_selector(strip_mark(self.value_selector_spec())) == Ok::<
                    ValueSelectorModel,
                    ParseFailure,
                >(v@),
                Err(e) => parse_value_selector(strip_mark(self.value_selector_spec())) == Err::<
                    ValueSelectorModel,
                    ParseFailure,
                >(e@),
            },
    {
        let vs = self.value_selector.as_str();
        let n = vs.unicode_len();
        if n > 0 && vs.get_char(0) == '?' {
            let body = slice(vs, 1, n);
            ValueSelector::parse(body.as_str())
        } else {
            ValueSelector::parse(vs)
        }
    }
}

/// A value selector without its leading `?`.
pub open spec fn strip_mark(v: Seq<char>) -> Seq<char> {
    if v.len() > 0 && v[0] == '?' {
        v.skip(1)
    } else {
        v
    }
}

} // verus!
