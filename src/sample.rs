//! Samples, replies and incoming queries.

use crate::key_expr::{KeyExpr, KeyExprInput};
use crate::options::SampleKind;
use crate::properties::{ParseError, Properties};
use crate::selector::{parse_value_selector, strip_mark, ParseFailure, Selector, ValueSelectorModel};
use crate::value::{decode_spec, encodes, Decoded, DecodeError, DecodedModel, Encoding, TypedInput, Value};
use std::sync::Arc;
use vstd::prelude::*;

verus! {

/// When a sample was stamped (a 64-bit NTP time) and by which source.
#[derive(Debug)]
pub struct Timestamp {
    pub time: u64,
    pub id: Vec<u8>,
}

/// Where a sample came from and how it was routed.
#[derive(Debug)]
pub struct SourceInfo {
    pub source_id: Option<Vec<u8>>,
    pub source_sn: Option<u64>,
    pub first_router_id: Option<Vec<u8>>,
    pub first_router_sn: Option<u64>,
}

impl SourceInfo {
    /// Source information with nothing known.
    pub fn unknown() -> (r: SourceInfo)
        ensures
            r.source_id is None,
            r.source_sn is None,
            r.first_router_id is None,
            r.first_router_sn is None,
    {
        SourceInfo { source_id: None, source_sn: None, first_router_id: None, first_router_sn: None }
    }
}

/// A key expression with a value, as published or received.
pub struct Sample {
    key_expr: KeyExpr,
    value: Value,
    kind: SampleKind,
    timestamp: Option<Timestamp>,
    source_info: SourceInfo,
}

impl Sample {
    pub closed spec fn key_expr_spec(&self) -> KeyExpr {
        self.key_expr
    }

    pub closed spec fn value_spec(&self) -> Value {
        self.value
    }

    pub closed spec fn kind_spec(&self) -> SampleKind {
        self.kind
    }

    pub closed spec fn timestamp_spec(&self) -> Option<Timestamp> {
        self.timestamp
    }

    pub closed spec fn source_info_spec(&self) -> SourceInfo {
        self.source_info
    }

    /// A `Put` sample of `value` on `key_expr`, with no timestamp and no
    /// source information.
    pub fn new(key_expr: KeyExprInput, value: TypedInput) -> (r: Sample)
        ensures
            (r.key_expr_spec().scope_spec(), r.key_expr_spec().suffix_spec()) == KeyExpr::of_input(
                key_expr,
            ),
            encodes(value, r.value_spec().payload_spec(), r.value_spec().encoding_spec()),
            r.kind_spec() == SampleKind::Put,
            r.timestamp_spec() is None,
    {
        Sample {
            key_expr: KeyExpr::new(key_expr),
            value: Value::new(value),
            kind: SampleKind::Put,
            timestamp: None,
            source_info: SourceInfo::unknown(),
        }
    }

    /// The same sample with the given kind.
    pub fn with_kind(self, kind: SampleKind) -> (r: Sample)
        ensures
            r.key_expr_spec() == self.key_expr_spec(),
            r.value_spec() == self.value_spec(),
            r.kind_spec() == kind,
            r.timestamp_spec() == self.timestamp_spec(),
        r.source_info_spec() == self.source_info_spec(),
    {
        Sample { kind, ..self }
    }

    /// The same sample with the given timestamp.
    pub fn with_timestamp(self, timestamp: Timestamp) -> (r: Sample)
        ensures
            r.key_expr_spec() == self.key_expr_spec(),
            r.value_spec() == self.value_spec(),
            r.kind_spec() == self.kind_spec(),
            r.timestamp_spec() == Some(timestamp),
        r.source_info_spec() == self.source_info_spec(),
    {
        Sample { timestamp: Some(timestamp), ..self }
    }

    /// The same sample with the given source information.
    pub fn with_source_info(self, source_info: SourceInfo) -> (r: Sample)
        ensures
            r.key_expr_spec() == self.key_expr_spec(),
            r.value_spec() == self.value_spec(),
            r.kind_spec() == self.kind_spec(),
            r.timestamp_spec() == self.timestamp_spec(),
            r.source_info_spec() == source_info,
    {
        Sample { source_info, ..self }
    }

    pub fn key_expr(&self) -> (r: &KeyExpr)
        ensures
            *r == self.key_expr_spec(),
    {
        &self.key_expr
    }

    pub fn value(&self) -> (r: &Value)
        ensures
            *r == self.value_spec(),
    {
        &self.value
    }

    pub fn kind(&self) -> (r: SampleKind)
        ensures
            r == self.kind_spec(),
    {
        self.kind
    }

    pub fn timestamp(&self) -> (r: Option<&Timestamp>)
        ensures
            match r {
                Some(t) => self.timestamp_spec() == Some(*t),
                None => self.timestamp_spec() is None,
            },
    {
        match &self.timestamp {
            Some(t) => Some(t),
            None => None,
        }
    }

    pub fn source_info(&self) -> (r: &SourceInfo)
        ensures
            *r == self.source_info_spec(),
    {
        &self.source_info
    }

    /// The payload of the sample's value.
    pub fn payload(&self) -> (r: &[u8])
        ensures
            r@ == self.value_spec().payload_spec(),
    {
        self.value.payload()
    }

    /// The encoding of the sample's value.
    pub fn encoding(&self) -> (r: &Encoding)
        ensures
            *r == self.value_spec().encoding_spec(),
    {
        self.value.encoding()
    }

    /// Decodes the sample's value.
    pub fn decode(&self) -> (r: Result<Decoded, DecodeError>)
        ensures
            match r {
                Ok(d) => decode_spec(
                    self.value_spec().payload_spec(),
                    self.value_spec().encoding_spec(),
                ) == Ok::<DecodedModel, DecodeError>(d.model()),
                Err(e) => decode_spec(
                    self.value_spec().payload_spec(),
                    self.value_spec().encoding_spec(),
                ) == Err::<DecodedModel, DecodeError>(e),
            },
    {
        self.value.decode()
    }
}

/// One reply to a query: a sample, or an error value from the replier.
pub struct Reply {
    pub sample: Result<Sample, Value>,
    pub replier_id: Vec<u8>,
}

/// A query received by a queryable: its selector and the engine's handle to
/// answer it, shared by every holder of the query.
pub struct _Query<Q> {
    selector: Selector,
    handle: Arc<Q>,
}

impl<Q> _Query<Q> {
    pub closed spec fn selector_spec(&self) -> Selector {
        self.selector
    }

    pub closed spec fn handle_spec(&self) -> Q {
        *self.handle
    }

    pub fn new(selector: Selector, handle: Q) -> (r: _Query<Q>)
        ensures
            r.selector_spec() == selector,
            r.handle_spec() == handle,
    {
        _Query { selector, handle: Arc::new(handle) }
    }

    /// The query itself, handed through unchanged.
    pub fn pynew(this: Self) -> (r: Self)
        ensures
            r == this,
    {
        this
    }

    /// The key selector of the query.
    pub fn key_expr(&self) -> (r: &KeyExpr)
        ensures
            *r == self.selector_spec().key_selector_spec(),
    {
        self.selector.key_selector()
    }

    /// The value selector of the query, from its `?` on.
    pub fn value_selector(&self) -> (r: &str)
        ensures
            r@ == self.selector_spec().value_selector_spec(),
    {
        self.selector.value_selector()
    }

    /// The properties of the value selector. A repeated key is an error, as
    /// is any other malformed value selector.
    pub fn decode_value_selector(&self) -> (r: Result<Properties, ParseError>)
        ensures
            match r {
                Ok(p) => parse_value_selector(strip_mark(self.selector_spec().value_selector_spec()))
                    matches Ok(m) && m.1 == p@,
                Err(e) => parse_value_selector(
                    strip_mark(self.selector_spec().value_selector_spec()),
                ) == Err::<ValueSelectorModel, ParseFailure>(e@),
            },
    {
        match self.selector.parse_value_selector() {
            Ok(vs) => Ok(vs.into_properties()),
            Err(e) => Err(e),
        }
    }

    /// The full selector of the query.
    pub fn selector(&self) -> (r: &Selector)
        ensures
            *r == self.selector_spec(),
    {
        &self.selector
    }

    /// The engine's handle, through which a reply is sent.
    pub fn handle(&self) -> (r: &Q)
        ensures
            *r == self.handle_spec(),
    {
        &*self.handle
    }
}

} // verus!
