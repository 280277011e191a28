//! Key expressions: a numeric scope plus a textual suffix, and their intersection.

use crate::text::string_eq;
use vstd::prelude::*;
use zenoh::prelude::{keyexpr, OwnedKeyExpr};

verus! {

/// Whether `s` is a key expression in the canon form that the engine accepts.
pub uninterp spec fn is_canon_key_expr(s: Seq<char>) -> bool;

/// The canon form of a key expression, when rewriting it gives a valid one.
pub uninterp spec fn canon_of(s: Seq<char>) -> Option<Seq<char>>;

/// Whether the sets of keys denoted by two canon key expressions share a key.
pub uninterp spec fn key_sets_meet(a: Seq<char>, b: Seq<char>) -> bool;

/// Relies on zenoh's `OwnedKeyExpr::autocanonize`: it rewrites the string
/// into canon form (`**/**` to `**`, `**/*` to `*/**`, ...) and succeeds
/// exactly when the result passes the same check as `keyexpr::new`.
#[verifier::external_body]
fn canonize(s: &str) -> (r: Option<String>)
    ensures
        match r {
            Some(c) => canon_of(s@) == Some(c@) && is_canon_key_expr(c@),
            None => canon_of(s@) is None,
        },
{
    OwnedKeyExpr::autocanonize(s.to_string()).ok().map(|k| k.to_string())
}

/// Relies on zenoh's `keyexpr::intersects`, documented as true exactly when at
/// least one key lies in both sets; that condition does not depend on the order
/// of the two operands.
#[verifier::external_body]
fn canon_intersect(a: &str, b: &str) -> (r: bool)
    requires
        is_canon_key_expr(a@),
        is_canon_key_expr(b@),
    ensures
        r == key_sets_meet(a@, b@),
        r == key_sets_meet(b@, a@),
{
    match (keyexpr::new(a), keyexpr::new(b)) {
        (Ok(x), Ok(y)) => x.intersects(y),
        _ => false,
    }
}

/// Intersection of two suffixes. Suffixes that have a canon form are compared
/// as the key sets those forms denote; a suffix that has none carries no
/// wildcard meaning and only meets the identical string.
pub open spec fn suffixes_meet(a: Seq<char>, b: Seq<char>) -> bool {
    match (canon_of(a), canon_of(b)) {
        (Some(x), Some(y)) => key_sets_meet(x, y),
        _ => a == b,
    }
}

/// A resource key or key pattern. `scope == 0` means the suffix is the whole
/// expression; a non-zero scope is a numeric alias declared on a session, to
/// which the suffix is appended.
pub struct KeyExpr {
    scope: u64,
    suffix: String,
}

/// The values that can be turned into a key expression.
pub enum KeyExprInput {
    Id(u64),
    Text(String),
    Expr(KeyExpr),
    IdSuffix(u64, String),
}

impl KeyExpr {
    pub closed spec fn scope_spec(&self) -> u64 {
        self.scope
    }

    pub closed spec fn suffix_spec(&self) -> Seq<char> {
        self.suffix@
    }

    /// Two key expressions intersect when they share their scope and their
    /// suffixes meet; expressions of different scopes never intersect.
    pub open spec fn intersects_spec(&self, other: &KeyExpr) -> bool {
        self.scope_spec() == other.scope_spec() && suffixes_meet(self.suffix_spec(), other.suffix_spec())
    }

    /// The key expression an input stands for.
    pub open spec fn of_input(input: KeyExprInput) -> (u64, Seq<char>) {
        match input {
            KeyExprInput::Id(id) => (id, Seq::empty()),
            KeyExprInput::Text(s) => (0, s@),
            KeyExprInput::Expr(k) => (k.scope_spec(), k.suffix_spec()),
            KeyExprInput::IdSuffix(id, s) => (id, s@),
        }
    }

    /// An unscoped key expression whose suffix is the whole expression.
    pub fn from_str(s: &str) -> (r: KeyExpr)
        ensures
            r.scope_spec() == 0,
            r.suffix_spec() == s@,
    {
        KeyExpr { scope: 0, suffix: s.to_owned() }
    }

    /// The key expression of a declared numeric alias, with no suffix.
    pub fn from_id(id: u64) -> (r: KeyExpr)
        ensures
            r.scope_spec() == id,
            r.suffix_spec() == Seq::<char>::empty(),
    {
        KeyExpr { scope: id, suffix: String::new() }
    }

    /// A declared numeric alias followed by a suffix.
    pub fn with_suffix(id: u64, suffix: String) -> (r: KeyExpr)
        ensures
            r.scope_spec() == id,
            r.suffix_spec() == suffix@,
    {
        KeyExpr { scope: id, suffix }
    }

    /// Builds a key expression from any of the accepted inputs.
    pub fn new(input: KeyExprInput) -> (r: KeyExpr)
        ensures
            (r.scope_spec(), r.suffix_spec()) == KeyExpr::of_input(input),
    {
        match input {
            KeyExprInput::Id(id) => KeyExpr::from_id(id),
            KeyExprInput::Text(s) => KeyExpr { scope: 0, suffix: s },
            KeyExprInput::Expr(k) => k,
            KeyExprInput::IdSuffix(id, s) => KeyExpr::with_suffix(id, s),
        }
    }

    /// The numeric scope (0 marks the global scope).
    pub fn scope(&self) -> (r: u64)
        ensures
            r == self.scope_spec(),
    {
        self.scope
    }

    /// The suffix, or the complete key expression when the scope is 0.
    pub fn suffix(&self) -> (r: &str)
        ensures
            r@ == self.suffix_spec(),
    {
        self.suffix.as_str()
    }

    /// Whether the two key expressions denote overlapping sets of keys. The
    /// answer is the same whichever operand comes first.
    pub fn intersect(s1: &KeyExpr, s2: &KeyExpr) -> (r: bool)
        ensures
            r == s1.intersects_spec(s2),
            r == s2.intersects_spec(s1),
    {
        if s1.scope != s2.scope {
            return false;
        }
        let a = s1.suffix.as_str();
        let b = s2.suffix.as_str();
        match (canonize(a), canonize(b)) {
            (Some(x), Some(y)) => canon_intersect(x.as_str(), y.as_str()),
            _ => string_eq(a, b),
        }
    }
}

impl Clone for KeyExpr {
    fn clone(&self) -> (r: KeyExpr)
        ensures
            r.scope_spec() == self.scope_spec(),
            r.suffix_spec() == self.suffix_spec(),
    {
        KeyExpr { scope: self.scope, suffix: self.suffix.clone() }
    }
}

} // verus!
