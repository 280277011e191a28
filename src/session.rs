//! A session and the resources declared on it. Every operation first checks
//! that the handle is still open and fails with `ClosedResource` otherwise,
//! before any engine interaction; an open handle yields the engine handle
//! together with the normalised arguments to submit to it.

use crate::bridge::Bridge;
use crate::handle::{access, shared_close_result, Exclusive, HandleError, Shared};
use crate::key_expr::{KeyExpr, KeyExprInput};
use crate::selector::Selector;
use crate::text::index_of;
use crate::value::{encodes, TypedInput, Value};
use vstd::prelude::*;

verus! {

/// The values that can be turned into a selector.
pub enum SelectorInput {
    Expr(KeyExpr),
    Id(u64),
    Text(String),
}

/// Whether `k` is the key expression an input stands for.
pub open spec fn key_of(k: KeyExpr, input: KeyExprInput) -> bool {
    (k.scope_spec(), k.suffix_spec()) == KeyExpr::of_input(input)
}

/// Whether `v` is the value an input stands for.
pub open spec fn value_of(v: Value, input: TypedInput) -> bool {
    encodes(input, v.payload_spec(), v.encoding_spec())
}

/// Whether `s` is the selector an input stands for.
pub open spec fn selector_of(s: Selector, input: SelectorInput) -> bool {
    match input {
        SelectorInput::Expr(k) => s.key_selector_spec() == k && s.value_selector_spec().len() == 0,
        SelectorInput::Id(id) => s.key_selector_spec().scope_spec() == id
            && s.key_selector_spec().suffix_spec().len() == 0 && s.value_selector_spec().len() == 0,
        SelectorInput::Text(t) => s.key_selector_spec().scope_spec() == 0
            && s.key_selector_spec().suffix_spec() == t@.take(index_of(t@, '?'))
            && s.value_selector_spec() == t@.skip(index_of(t@, '?')),
    }
}

/// A session with the engine, possibly shared by several holders.
pub struct Session<E> {
    s: Shared<E>,
}

impl<E> Session<E> {
    /// The engine session while this holder is open.
    pub closed spec fn engine(&self) -> Option<E> {
        self.s.slot()
    }

    /// Wraps an engine session that was just opened.
    pub fn new(engine: E) -> (r: Session<E>)
        ensures
            r.engine() == Some(engine),
    {
        Session { s: Shared::new(engine) }
    }

    pub fn is_open(&self) -> (r: bool)
        ensures
            r == (self.engine() is Some),
    {
        self.s.is_open()
    }

    /// Another holder of the same session.
    pub fn share(&self) -> (r: Result<Session<E>, HandleError>)
        ensures
            match r {
                Ok(s) => s.engine() == self.engine() && self.engine() is Some,
                Err(e) => access(self.engine()) == Err::<E, HandleError>(e),
            },
    {
        match self.s.share() {
            Ok(s) => Ok(Session { s }),
            Err(e) => Err(e),
        }
    }

    /// The engine session, or `ClosedResource`.
    fn try_ref(&self) -> (r: Result<&E, HandleError>)
        ensures
            match r {
                Ok(e) => access(self.engine()) == Ok::<E, HandleError>(*e),
                Err(e) => access(self.engine()) == Err::<E, HandleError>(e),
            },
    {
        self.s.try_ref()
    }

    /// Closes this holder. When it was the last one, the engine session is
    /// handed back to be torn down; when other holders remain, it fails with
    /// `NotSoleOwner` and the session lives on through them. Either way this
    /// holder is closed afterwards.
    pub fn close(&mut self) -> (r: Result<E, HandleError>)
        ensures
            final(self).engine() is None,
            exists|sole: bool| r == shared_close_result(old(self).engine(), sole),
    {
        self.s.close()
    }

    /// The engine session, to read its information.
    pub fn info(&self) -> (r: Result<&E, HandleError>)
        ensures
            match r {
                Ok(e) => access(self.engine()) == Ok::<E, HandleError>(*e),
                Err(e) => access(self.engine()) == Err::<E, HandleError>(e),
            },
    {
        self.try_ref()
    }

    /// The engine session, to read or change its configuration.
    pub fn config(&self) -> (r: Result<&E, HandleError>)
        ensures
            match r {
                Ok(e) => access(self.engine()) == Ok::<E, HandleError>(*e),
                Err(e) => access(self.engine()) == Err::<E, HandleError>(e),
            },
    {
        self.try_ref()
    }

    /// A publication of `value` on `key_expr`, ready to submit.
    pub fn put(&self, key_expr: KeyExprInput, value: TypedInput) -> (r: Result<
        (&E, KeyExpr, Value),
        HandleError,
    >)
        ensures
            match r {
                Ok((e, k, v)) => access(self.engine()) == Ok::<E, HandleError>(*e) && key_of(
                    k,
                    key_expr,
                ) && value_of(v, value),
                Err(e) => access(self.engine()) == Err::<E, HandleError>(e),
            },
    {
        let e = match self.try_ref() {
            Ok(e) => e,
            Err(err) => return Err(err),
        };
        Ok((e, KeyExpr::new(key_expr), Value::new(value)))
    }

    /// A deletion on `key_expr`, ready to submit.
    pub fn delete(&self, key_expr: KeyExprInput) -> (r: Result<(&E, KeyExpr), HandleError>)
        ensures
            match r {
                Ok((e, k)) => access(self.engine()) == Ok::<E, HandleError>(*e) && key_of(k, key_expr),
                Err(e) => access(self.engine()) == Err::<E, HandleError>(e),
            },
    {
        self.with_key(key_expr)
    }

    /// A key expression to map to a numeric alias.
    pub fn declare_expr(&self, key_expr: KeyExprInput) -> (r: Result<(&E, KeyExpr), HandleError>)
        ensures
            match r {
                Ok((e, k)) => access(self.engine()) == Ok::<E, HandleError>(*e) && key_of(k, key_expr),
                Err(e) => access(self.engine()) == Err::<E, HandleError>(e),
            },
    {
        self.with_key(key_expr)
    }

    /// A numeric alias to unmap.
    pub fn undeclare_expr(&self, rid: u64) -> (r: Result<(&E, u64), HandleError>)
        ensures
            match r {
                Ok((e, id)) => access(self.engine()) == Ok::<E, HandleError>(*e) && id == rid,
                Err(e) => access(self.engine()) == Err::<E, HandleError>(e),
            },
    {
        match self.try_ref() {
            Ok(e) => Ok((e, rid)),
            Err(err) => Err(err),
        }
    }

    /// A key expression to declare as published.
    pub fn declare_publication(&self, key_expr: KeyExprInput) -> (r: Result<(&E, KeyExpr), HandleError>)
        ensures
            match r {
                Ok((e, k)) => access(self.engine()) == Ok::<E, HandleError>(*e) && key_of(k, key_expr),
                Err(e) => access(self.engine()) == Err::<E, HandleError>(e),
            },
    {
        self.with_key(key_expr)
    }

    /// A key expression whose publication declaration is withdrawn.
    pub fn undeclare_publication(&self, key_expr: KeyExprInput) -> (r: Result<
        (&E, KeyExpr),
        HandleError,
    >)
        ensures
            match r {
                Ok((e, k)) => access(self.engine()) == Ok::<E, HandleError>(*e) && key_of(k, key_expr),
                Err(e) => access(self.engine()) == Err::<E, HandleError>(e),
            },
    {
        self.with_key(key_expr)
    }

    /// A subscription on `key_expr`: the engine session, the key, and an open
    /// bridge that owns the callback, to be driven from the engine's threads.
    pub fn subscribe<C>(&self, key_expr: KeyExprInput, callback: C) -> (r: Result<
        (&E, KeyExpr, Bridge<C>),
        HandleError,
    >)
        ensures
            match r {
                Ok((e, k, b)) => access(self.engine()) == Ok::<E, HandleError>(*e) && key_of(
                    k,
                    key_expr,
                ) && b.is_open_spec() && b.callback_spec() == callback,
                Err(e) => access(self.engine()) == Err::<E, HandleError>(e),
            },
    {
        let e = match self.try_ref() {
            Ok(e) => e,
            Err(err) => return Err(err),
        };
        Ok((e, KeyExpr::new(key_expr), Bridge::new(callback)))
    }

    /// A queryable on `key_expr`, with its callback behind an open bridge.
    pub fn queryable<C>(&self, key_expr: KeyExprInput, callback: C) -> (r: Result<
        (&E, KeyExpr, Bridge<C>),
        HandleError,
    >)
        ensures
            match r {
                Ok((e, k, b)) => access(self.engine()) == Ok::<E, HandleError>(*e) && key_of(
                    k,
                    key_expr,
                ) && b.is_open_spec() && b.callback_spec() == callback,
                Err(e) => access(self.engine()) == Err::<E, HandleError>(e),
            },
    {
        self.subscribe(key_expr, callback)
    }

    /// A query on a selector, ready to submit.
    pub fn get(&self, selector: SelectorInput) -> (r: Result<(&E, Selector), HandleError>)
        ensures
            match r {
                Ok((e, s)) => access(self.engine()) == Ok::<E, HandleError>(*e) && selector_of(
                    s,
                    selector,
                ),
                Err(e) => access(self.engine()) == Err::<E, HandleError>(e),
            },
    {
        let e = match self.try_ref() {
            Ok(e) => e,
            Err(err) => return Err(err),
        };
        let s = match selector {
            SelectorInput::Expr(k) => Selector::from_key_expr(k),
            SelectorInput::Id(id) => Selector::from_key_expr(KeyExpr::from_id(id)),
            SelectorInput::Text(t) => Selector::parse(t.as_str()),
        };
        Ok((e, s))
    }

    fn with_key(&self, key_expr: KeyExprInput) -> (r: Result<(&E, KeyExpr), HandleError>)
        ensures
            match r {
                Ok((e, k)) => access(self.engine()) == Ok::<E, HandleError>(*e) && key_of(k, key_expr),
                Err(e) => access(self.engine()) == Err::<E, HandleError>(e),
            },
    {
        match self.try_ref() {
            Ok(e) => Ok((e, KeyExpr::new(key_expr))),
            Err(err) => Err(err),
        }
    }
}

/// A subscription declared on the engine, owned by one holder.
pub struct Subscriber<S> {
    inner: Exclusive<S>,
}

impl<S> Subscriber<S> {
    pub closed spec fn handle(&self) -> Option<S> {
        self.inner.slot()
    }

    pub fn new(handle: S) -> (r: Subscriber<S>)
        ensures
            r.handle() == Some(handle),
    {
        Subscriber { inner: Exclusive::new(handle) }
    }

    /// The engine subscriber, to pull from a pull-mode subscription.
    pub fn pull(&self) -> (r: Result<&S, HandleError>)
        ensures
            match r {
                Ok(s) => access(self.handle()) == Ok::<S, HandleError>(*s),
                Err(e) => access(self.handle()) == Err::<S, HandleError>(e),
            },
    {
        self.inner.try_ref()
    }

    /// Closes the subscription and hands the engine subscriber over for
    /// teardown; a second close fails with `ClosedResource`.
    pub fn close(&mut self) -> (r: Result<S, HandleError>)
        ensures
            final(self).handle() is None,
            r == access(old(self).handle()),
    {
        self.inner.close()
    }
}

/// A queryable declared on the engine, owned by one holder.
pub struct Queryable<Q> {
    inner: Exclusive<Q>,
}

impl<Q> Queryable<Q> {
    pub closed spec fn handle(&self) -> Option<Q> {
        self.inner.slot()
    }

    pub fn new(handle: Q) -> (r: Queryable<Q>)
        ensures
            r.handle() == Some(handle),
    {
        Queryable { inner: Exclusive::new(handle) }
    }

    /// Closes the queryable and hands the engine queryable over for
    /// teardown; a second close fails with `ClosedResource`.
    pub fn close(&mut self) -> (r: Result<Q, HandleError>)
        ensures
            final(self).handle() is None,
            r == access(old(self).handle()),
    {
        self.inner.close()
    }
}

} // verus!
