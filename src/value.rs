//! Encoding-tagged values: a byte payload and the tag that says how to read it.
//! Values are built from typed inputs, which set payload and tag together, and
//! decoded back according to the tag.

use crate::properties::{entries_map, entry_views, unique_keys, Properties};
use std::collections::HashMap;
use zenoh::properties::Properties as PropertyMap;
use crate::json::{is_json, json_accepts};
use vstd::prelude::*;
use vstd::slice::slice_to_vec;
use vstd::utf8::{decode_utf8, encode_utf8, encode_utf8_decode_utf8, encode_utf8_valid_utf8, valid_utf8};
use vstd::string::StringSliceAdditionalSpecFns;

verus! {

/// The text that an invalid UTF-8 byte string reads as, invalid sequences
/// replaced.
pub uninterp spec fn lossy_utf8(b: Seq<u8>) -> Seq<char>;

/// The text that a byte string reads as: valid UTF-8 as it is, anything else
/// with its invalid sequences replaced.
pub open spec fn utf8_text(b: Seq<u8>) -> Seq<char> {
    if valid_utf8(b) {
        decode_utf8(b)
    } else {
        lossy_utf8(b)
    }
}

/// Relies on std's `String::from_utf8_lossy`: valid UTF-8 reads as the text it
/// encodes, and each invalid sequence becomes U+FFFD.
#[verifier::external_body]
fn text_of(b: &[u8]) -> (r: String)
    ensures
        valid_utf8(b@) ==> r@ == decode_utf8(b@),
        !valid_utf8(b@) ==> r@ == lossy_utf8(b@),
{
    String::from_utf8_lossy(b).into_owned()
}

/// The mapping that zenoh's property-list parser reads from a text.
pub uninterp spec fn props_of(t: Seq<char>) -> Map<Seq<char>, Seq<char>>;

/// Relies on std's `str::from_utf8`: it succeeds exactly on valid UTF-8, and
/// then the text is the one the bytes encode.
#[verifier::external_body]
fn strict_text(b: &[u8]) -> (r: Option<String>)
    ensures
        r is Some <==> valid_utf8(b@),
        r matches Some(s) ==> s@ == decode_utf8(b@),
{
    std::str::from_utf8(b).ok().map(|s| s.to_string())
}

/// Relies on zenoh's `Properties::from(&str)`, which splits on `;` and line
/// breaks, splits each entry at its first `=` or `:`, trims, skips empty and
/// `#` entries, and keeps the last value of a repeated key. The entries are
/// those of a map, so keys are unique; their order is the map's.
#[verifier::external_body]
fn zenoh_parse_properties(t: &str) -> (r: Vec<(String, String)>)
    ensures
        unique_keys(entry_views(r@)),
        entries_map(entry_views(r@)) == props_of(t@),
{
    PropertyMap::from(t).0.into_iter().collect()
}

/// Relies on zenoh's `Display` for `Properties`: the entries as `key=value`
/// (a bare key for an empty value) joined with `;`, in the order the map
/// walks them, which nothing fixes.
#[verifier::external_body]
fn zenoh_properties_text(entries: &Vec<(String, String)>) -> (r: String) {
    PropertyMap::from(entries.iter().cloned().collect::<HashMap<String, String>>()).to_string()
}

/// How a payload is to be read.
#[derive(Debug)]
pub enum Encoding {
    Empty,
    Bytes,
    Text,
    Json,
    Properties,
    Integer,
    Float,
    /// A tag this library has no decoding rule for, with its suffix.
    Custom(String),
}

impl Clone for Encoding {
    fn clone(&self) -> (r: Encoding)
        ensures
            r == *self,
    {
        match self {
            Encoding::Empty => Encoding::Empty,
            Encoding::Bytes => Encoding::Bytes,
            Encoding::Text => Encoding::Text,
            Encoding::Json => Encoding::Json,
            Encoding::Properties => Encoding::Properties,
            Encoding::Integer => Encoding::Integer,
            Encoding::Float => Encoding::Float,
            Encoding::Custom(s) => Encoding::Custom(s.clone()),
        }
    }
}

/// The ASCII digit for `d < 10`.
pub open spec fn digit_byte(d: nat) -> u8 {
    (d + 48) as u8
}

pub open spec fn is_digit(b: u8) -> bool {
    48 <= b <= 57
}

/// The decimal digits of `n`, most significant first, without leading zeros.
pub open spec fn decimal_digits(n: nat) -> Seq<u8>
    decreases n,
{
    if n < 10 {
        seq![digit_byte(n)]
    } else {
        decimal_digits(n / 10).push(digit_byte(n % 10))
    }
}

/// The text of an integer as `to_string` writes it: `-` before the digits of
/// a negative number.
pub open spec fn decimal(i: int) -> Seq<u8> {
    if i < 0 {
        seq![45u8] + decimal_digits((-i) as nat)
    } else {
        decimal_digits(i as nat)
    }
}

/// The number that a run of digits stands for.
pub open spec fn digits_value(d: Seq<u8>) -> int
    decreases d.len(),
{
    if d.len() == 0 {
        0
    } else {
        digits_value(d.drop_last()) * 10 + (d.last() - 48)
    }
}

pub open spec fn all_digits(d: Seq<u8>) -> bool {
    d.len() > 0 && forall|k: int| 0 <= k < d.len() ==> is_digit(#[trigger] d[k])
}

/// The integer that a text stands for under `str::parse`: an optional sign,
/// then one or more decimal digits.
pub open spec fn parse_decimal(b: Seq<u8>) -> Option<int> {
    if b.len() > 0 && (b[0] == 45 || b[0] == 43) {
        if all_digits(b.skip(1)) {
            Some(
                if b[0] == 45 {
                    -digits_value(b.skip(1))
                } else {
                    digits_value(b.skip(1))
                },
            )
        } else {
            None
        }
    } else if all_digits(b) {
        Some(digits_value(b))
    } else {
        None
    }
}

/// The 64-bit integer a payload holds, if it parses and fits.
pub open spec fn decode_integer(b: Seq<u8>) -> Option<int> {
    match parse_decimal(b) {
        Some(n) => if i64::MIN <= n <= i64::MAX {
            Some(n)
        } else {
            None
        },
        None => None,
    }
}

/// The typed values a `Value` can be built from.
pub enum TypedInput {
    Bytes(Vec<u8>),
    Text(String),
    Properties(Properties),
    Integer(i64),
    /// A payload with an explicit encoding.
    Encoded(Vec<u8>, Encoding),
    /// A text payload with an explicit encoding.
    EncodedText(String, Encoding),
    /// A value that is already built.
    Value(Value),
}

/// A payload and its encoding tag.
pub struct Value {
    payload: Vec<u8>,
    encoding: Encoding,
}

/// What decoding gives, as a model.
pub enum DecodedModel {
    Bytes(Seq<u8>),
    Text(Seq<char>),
    Json(Seq<char>),
    Properties(Map<Seq<char>, Seq<char>>),
    Integer(int),
    Float(Seq<char>),
}

/// A decoded value.
pub enum Decoded {
    Bytes(Vec<u8>),
    Text(String),
    /// The text of a JSON document.
    Json(String),
    Properties(Properties),
    Integer(i64),
    /// The text of a floating-point number; turning it into a binary float
    /// is left to the caller.
    Float(String),
}

impl Decoded {
    pub open spec fn model(&self) -> DecodedModel {
        match self {
            Decoded::Bytes(b) => DecodedModel::Bytes(b@),
            Decoded::Text(s) => DecodedModel::Text(s@),
            Decoded::Json(s) => DecodedModel::Json(s@),
            Decoded::Properties(p) => DecodedModel::Properties(entries_map(p@)),
            Decoded::Integer(i) => DecodedModel::Integer(*i as int),
            Decoded::Float(s) => DecodedModel::Float(s@),
        }
    }
}

/// Why a payload could not be decoded.
#[derive(Debug)]
pub enum DecodeError {
    /// The tag has no decoding rule.
    UnsupportedEncoding(Encoding),
    /// The payload does not read as its tag says.
    Malformed(Encoding),
}

/// Whether a payload and tag are what an input encodes to. A property list
/// is written by zenoh in an order its map chooses, so only its tag and the
/// fact that the payload is text are fixed.
pub open spec fn encodes(x: TypedInput, payload: Seq<u8>, e: Encoding) -> bool {
    match x {
        TypedInput::Bytes(b) => payload == b@ && e == Encoding::Bytes,
        TypedInput::Text(s) => payload == encode_utf8(s@) && e == Encoding::Text,
        TypedInput::Properties(_) => valid_utf8(payload) && e == Encoding::Properties,
        TypedInput::Integer(i) => payload == decimal(i as int) && e == Encoding::Integer,
        TypedInput::Encoded(b, t) => payload == b@ && e == t,
        TypedInput::EncodedText(s, t) => payload == encode_utf8(s@) && e == t,
        TypedInput::Value(v) => payload == v.payload_spec() && e == v.encoding_spec(),
    }
}

/// What a payload decodes to under a tag.
pub open spec fn decode_spec(payload: Seq<u8>, e: Encoding) -> Result<DecodedModel, DecodeError> {
    match e {
        Encoding::Empty => Ok(DecodedModel::Bytes(payload)),
        Encoding::Bytes => Ok(DecodedModel::Bytes(payload)),
        Encoding::Text => Ok(DecodedModel::Text(utf8_text(payload))),
        Encoding::Json => if json_accepts(payload) {
            Ok(DecodedModel::Json(utf8_text(payload)))
        } else {
            Err(DecodeError::Malformed(e))
        },
        Encoding::Properties => if valid_utf8(payload) {
            Ok(DecodedModel::Properties(props_of(decode_utf8(payload))))
        } else {
            Err(DecodeError::Malformed(e))
        },
        Encoding::Integer => match decode_integer(payload) {
            Some(n) => Ok(DecodedModel::Integer(n)),
            None => Err(DecodeError::Malformed(e)),
        },
        Encoding::Float => Ok(DecodedModel::Float(utf8_text(payload))),
        Encoding::Custom(_) => Err(DecodeError::UnsupportedEncoding(e)),
    }
}

/// Appends the decimal digits of `n`.
fn push_digits(n: u64, out: &mut Vec<u8>)
    ensures
        final(out)@ == old(out)@ + decimal_digits(n as nat),
    decreases n,
{
    if n >= 10 {
        push_digits(n / 10, out);
    }
    let d: u8 = (n % 10) as u8;
    out.push(d + 48);
    assert(final(out)@ =~= old(out)@ + decimal_digits(n as nat));
}

/// The decimal text of `i`, as bytes.
fn decimal_bytes(i: i64) -> (r: Vec<u8>)
    ensures
        r@ == decimal(i as int),
{
    let mut out: Vec<u8> = Vec::new();
    if i < 0 {
        out.push(45u8);
        let mag: u64 = (0i128 - i as i128) as u64;
        push_digits(mag, &mut out);
    } else {
        push_digits(i as u64, &mut out);
    }
    assert(out@ =~= decimal(i as int));
    out
}

proof fn lemma_digits_value_nonneg(d: Seq<u8>)
    requires
        forall|k: int| 0 <= k < d.len() ==> is_digit(#[trigger] d[k]),
    ensures
        digits_value(d) >= 0,
    decreases d.len(),
{
    if d.len() > 0 {
        let init = d.drop_last();
        assert forall|k: int| 0 <= k < init.len() implies is_digit(#[trigger] init[k]) by {
            assert(init[k] == d[k]);
        }
        lemma_digits_value_nonneg(init);
        assert(is_digit(d[d.len() - 1]));
    }
}

/// The largest magnitude worth tracking: one past `2^63`.
const MAGNITUDE_CAP: u64 = 9223372036854775809;

/// Parses a decimal integer that fits in 64 bits.
fn parse_i64(b: &[u8]) -> (r: Option<i64>)
    ensures
        match r {
            Some(n) => decode_integer(b@) == Some(n as int),
            None => decode_integer(b@) is None,
        },
{
    let n = b.len();
    let signed = n > 0 && (b[0] == 45u8 || b[0] == 43u8);
    let negative = n > 0 && b[0] == 45u8;
    let start: usize = if signed { 1 } else { 0 };
    if start >= n {
        return None;
    }
    let ghost d = b@.subrange(start as int, n as int);
    assert(signed ==> d =~= b@.skip(1));
    assert(!signed ==> d =~= b@);
    let mut acc: u64 = 0;
    let mut i: usize = start;
    assert(d.take(0) =~= Seq::<u8>::empty());
    while i < n
        invariant
            start <= i <= n,
            n == b@.len(),
            d == b@.subrange(start as int, n as int),
            signed == (n > 0 && (b@[0] == 45 || b@[0] == 43)),
            negative == (n > 0 && b@[0] == 45),
            signed ==> d == b@.skip(1),
            !signed ==> d == b@,
            forall|k: int| 0 <= k < i - start ==> is_digit(#[trigger] d[k]),
            acc as int == if digits_value(d.take(i - start)) < MAGNITUDE_CAP {
                digits_value(d.take(i - start))
            } else {
                MAGNITUDE_CAP as int
            },
        decreases n - i,
    {
        let c = b[i];
        if c < 48u8 || c > 57u8 {
            assert(!is_digit(d[i - start]));
            return None;
        }
        let ghost pre = d.take(i - start);
        let ghost v = digits_value(pre);
        let ghost x = (c - 48) as int;
        assert(d.take(i - start + 1).drop_last() =~= pre);
        assert(d.take(i - start + 1).last() == c);
        proof {
            assert forall|k: int| 0 <= k < pre.len() implies is_digit(#[trigger] pre[k]) by {
                assert(pre[k] == d[k]);
            }
            lemma_digits_value_nonneg(pre);
        }
        let digit: u64 = (c - 48u8) as u64;
        if acc >= MAGNITUDE_CAP / 10 + 1 {
            assert(acc * 10 + digit >= MAGNITUDE_CAP) by (nonlinear_arith)
                requires acc >= MAGNITUDE_CAP / 10 + 1;
            assert(v * 10 + x >= MAGNITUDE_CAP) by (nonlinear_arith)
                requires v >= acc, acc * 10 + digit >= MAGNITUDE_CAP, x == digit;
            acc = MAGNITUDE_CAP;
        } else {
            let next = acc * 10 + digit;
            proof {
                if v < MAGNITUDE_CAP as int {
                    assert(acc == v);
                } else {
                    assert(acc == MAGNITUDE_CAP);
                }
            }
            if next >= MAGNITUDE_CAP {
                acc = MAGNITUDE_CAP;
            } else {
                acc = next;
            }
        }
        i = i + 1;
    }
    assert(d.take(n - start) =~= d);
    assert(all_digits(d));
    if negative {
        if acc > 9223372036854775808u64 {
            return None;
        }
        Some((0i128 - acc as i128) as i64)
    } else {
        if acc > 9223372036854775807u64 {
            return None;
        }
        Some(acc as i64)
    }
}

impl Value {
    pub closed spec fn payload_spec(&self) -> Seq<u8> {
        self.payload@
    }

    pub closed spec fn encoding_spec(&self) -> Encoding {
        self.encoding
    }

    /// Builds a value from a typed input: payload and tag are set together.
    pub fn new(input: TypedInput) -> (r: Value)
        ensures
            encodes(input, r.payload_spec(), r.encoding_spec()),
    {
        match input {
            TypedInput::Bytes(b) => Value { payload: b, encoding: Encoding::Bytes },
            TypedInput::Text(s) => Value { payload: s.as_str().as_bytes_vec(), encoding: Encoding::Text },
            TypedInput::Properties(p) => {
                let t = zenoh_properties_text(p.entries());
                proof {
                    encode_utf8_valid_utf8(t@);
                }
                Value { payload: t.as_str().as_bytes_vec(), encoding: Encoding::Properties }
            },
            TypedInput::Integer(i) => Value { payload: decimal_bytes(i), encoding: Encoding::Integer },
            TypedInput::Encoded(b, e) => Value { payload: b, encoding: e },
            TypedInput::EncodedText(s, e) => Value { payload: s.as_str().as_bytes_vec(), encoding: e },
            TypedInput::Value(v) => v,
        }
    }

    /// The payload bytes.
    pub fn payload(&self) -> (r: &[u8])
        ensures
            r@ == self.payload_spec(),
    {
        self.payload.as_slice()
    }

    /// The encoding tag.
    pub fn encoding(&self) -> (r: &Encoding)
        ensures
            *r == self.encoding_spec(),
    {
        &self.encoding
    }

    /// Decodes the payload as its tag says. Bytes come back as they are, text
    /// is read as UTF-8 with invalid sequences replaced, property lists (by zenoh) and
    /// integers are parsed, JSON is checked and handed back as text, and a custom tag fails
    /// with `UnsupportedEncoding`.
    pub fn decode(&self) -> (r: Result<Decoded, DecodeError>)
        ensures
            match r {
                Ok(d) => decode_spec(self.payload_spec(), self.encoding_spec()) == Ok::<
                    DecodedModel,
                    DecodeError,
                >(d.model()),
                Err(e) => decode_spec(self.payload_spec(), self.encoding_spec()) == Err::<
                    DecodedModel,
                    DecodeError,
                >(e),
            },
    {
        let b = self.payload.as_slice();
        match &self.encoding {
            Encoding::Empty => Ok(Decoded::Bytes(slice_to_vec(b))),
            Encoding::Bytes => Ok(Decoded::Bytes(slice_to_vec(b))),
            Encoding::Text => Ok(Decoded::Text(text_of(b))),
            Encoding::Json => if is_json(b) {
                Ok(Decoded::Json(text_of(b)))
            } else {
                Err(DecodeError::Malformed(Encoding::Json))
            },
            Encoding::Properties => match strict_text(b) {
                Some(t) => Ok(Decoded::Properties(Properties::from_unique(zenoh_parse_properties(t.as_str())))),
                None => Err(DecodeError::Malformed(Encoding::Properties)),
            },
            Encoding::Integer => match parse_i64(b) {
                Some(i) => Ok(Decoded::Integer(i)),
                None => Err(DecodeError::Malformed(Encoding::Integer)),
            },
            Encoding::Float => Ok(Decoded::Float(text_of(b))),
            Encoding::Custom(_) => Err(DecodeError::UnsupportedEncoding(self.encoding.clone())),
        }
    }
}

/// A value under a custom tag always fails to decode, with
/// `UnsupportedEncoding` carrying that tag, whatever its payload.
pub proof fn lemma_custom_tag_unsupported(payload: Seq<u8>, suffix: String)
    ensures
        decode_spec(payload, Encoding::Custom(suffix)) == Err::<DecodedModel, DecodeError>(
            DecodeError::UnsupportedEncoding(Encoding::Custom(suffix)),
        ),
{
}

/// What decoding gives back for the inputs that survive a round trip.
pub open spec fn input_model(x: TypedInput) -> DecodedModel {
    match x {
        TypedInput::Bytes(b) => DecodedModel::Bytes(b@),
        TypedInput::Text(s) => DecodedModel::Text(s@),
        TypedInput::Integer(i) => DecodedModel::Integer(i as int),
        _ => DecodedModel::Bytes(Seq::empty()),
    }
}

proof fn lemma_decimal_digits(n: nat)
    ensures
        all_digits(decimal_digits(n)),
        digits_value(decimal_digits(n)) == n,
    decreases n,
{
    let d = decimal_digits(n);
    if n < 10 {
        assert(d.drop_last() =~= Seq::<u8>::empty());
        assert(digit_byte(n) as int == n + 48);
        assert(digits_value(d) == digits_value(d.drop_last()) * 10 + (d.last() - 48));
    } else {
        lemma_decimal_digits(n / 10);
        assert(d.drop_last() =~= decimal_digits(n / 10));
        assert(d.last() == digit_byte(n % 10));
        assert(digit_byte(n % 10) as int == n % 10 + 48);
        assert(digits_value(d) == digits_value(d.drop_last()) * 10 + (d.last() - 48));
        assert(n == (n / 10) * 10 + n % 10);
        assert forall|k: int| 0 <= k < d.len() implies is_digit(#[trigger] d[k]) by {
            if k < d.len() - 1 {
                assert(d[k] == decimal_digits(n / 10)[k]);
            }
        }
    }
}

proof fn lemma_integer_round_trip(i: i64)
    ensures
        decode_integer(decimal(i as int)) == Some(i as int),
{
    let b = decimal(i as int);
    if i < 0 {
        let m = (-i) as nat;
        lemma_decimal_digits(m);
        assert(b.skip(1) =~= decimal_digits(m));
    } else {
        lemma_decimal_digits(i as nat);
        assert(is_digit(b[0]));
    }
}

/// Decoding what a typed input encodes to gives the input back, for bytes,
/// text and integers.
pub proof fn lemma_codec_round_trip(x: TypedInput, payload: Seq<u8>, e: Encoding)
    requires
        x is Bytes || x is Text || x is Integer,
        encodes(x, payload, e),
    ensures
        decode_spec(payload, e) == Ok::<DecodedModel, DecodeError>(input_model(x)),
{
    match x {
        TypedInput::Text(s) => {
            encode_utf8_valid_utf8(s@);
            encode_utf8_decode_utf8(s@);
        },
        TypedInput::Integer(i) => {
            lemma_integer_round_trip(i);
        },
        _ => {},
    }
}

} // verus!
