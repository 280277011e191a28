//! Numeric aliases for key expressions: a session maps small integers to the
//! expressions they stand for, and a scoped key expression expands to its
//! alias's expression followed by its suffix.

use crate::key_expr::KeyExpr;
use vstd::prelude::*;

verus! {

/// The aliases declared on a session.
pub struct AliasTable {
    entries: Vec<(u64, String)>,
    next: u64,
}

impl AliasTable {
    /// Ids are unique, non-zero and at most the last id handed out.
    pub closed spec fn wf(&self) -> bool {
        &&& forall|i: int, j: int|
            0 <= i < j < self.entries@.len() ==> self.entries@[i].0 != self.entries@[j].0
        &&& forall|i: int| 0 <= i < self.entries@.len() ==> 0 < #[trigger] self.entries@[i].0 <= self.next
    }

    /// The last id handed out, 0 before the first.
    pub closed spec fn issued(&self) -> u64 {
        self.next
    }

    /// The expression an alias stands for, if it is declared.
    pub closed spec fn lookup(&self, id: u64) -> Option<Seq<char>> {
        if exists|i: int| 0 <= i < self.entries@.len() && self.entries@[i].0 == id {
            let i = choose|i: int| 0 <= i < self.entries@.len() && self.entries@[i].0 == id;
            Some(self.entries@[i].1@)
        } else {
            None
        }
    }

    /// The full expression a key expression stands for: its suffix when it is
    /// unscoped, its alias's expression followed by the suffix otherwise, and
    /// nothing when the alias is not declared.
    pub open spec fn expansion(&self, k: KeyExpr) -> Option<Seq<char>> {
        if k.scope_spec() == 0 {
            Some(k.suffix_spec())
        } else {
            match self.lookup(k.scope_spec()) {
                Some(p) => Some(p + k.suffix_spec()),
                None => None,
            }
        }
    }

    proof fn lemma_lookup_at(&self, i: int)
        requires
            self.wf(),
            0 <= i < self.entries@.len(),
        ensures
            self.lookup(self.entries@[i].0) == Some(self.entries@[i].1@),
    {
        let id = self.entries@[i].0;
        assert(exists|j: int| 0 <= j < self.entries@.len() && self.entries@[j].0 == id);
        let j = choose|j: int| 0 <= j < self.entries@.len() && self.entries@[j].0 == id;
        if j != i {
            if j < i {
                assert(self.entries@[j].0 != self.entries@[i].0);
            } else {
                assert(self.entries@[i].0 != self.entries@[j].0);
            }
        }
    }

    /// An empty table.
    pub fn new() -> (r: AliasTable)
        ensures
            r.wf(),
            r.issued() == 0,
            forall|id: u64| r.lookup(id) is None,
    {
        AliasTable { entries: Vec::new(), next: 0 }
    }

    /// Index of the entry for `id`.
    fn position(&self, id: u64) -> (r: Option<usize>)
        requires
            self.wf(),
        ensures
            match r {
                Some(i) => i < self.entries@.len() && self.entries@[i as int].0 == id,
                None => self.lookup(id) is None,
            },
    {
        let n = self.entries.len();
        for i in 0..n
            invariant
                n == self.entries@.len(),
                forall|j: int| 0 <= j < i ==> self.entries@[j].0 != id,
        {
            if self.entries[i].0 == id {
                return Some(i);
            }
        }
        None
    }

    /// Declares an alias for `expr` and returns its id, the one after the
    /// last id handed out; `None`, with the table unchanged, once every id
    /// has been handed out.
    pub fn declare(&mut self, expr: String) -> (r: Option<u64>)
        requires
            old(self).wf(),
        ensures
            final(self).wf(),
            (r is None) == (old(self).issued() == u64::MAX),
            match r {
                Some(id) => id == old(self).issued() + 1 && final(self).issued() == id && id != 0 && old(self).lookup(id) is None && final(self).lookup(id) == Some(
                    expr@,
                ) && forall|o: u64| o != id ==> final(self).lookup(o) == old(self).lookup(o),
                None => *final(self) == *old(self),
            },
    {
        if self.next == u64::MAX {
            return None;
        }
        let id = self.next + 1;
        let ghost before = *self;
        assert(before.lookup(id) is None) by {
            if exists|i: int| 0 <= i < before.entries@.len() && before.entries@[i].0 == id {
                let i = choose|i: int| 0 <= i < before.entries@.len() && before.entries@[i].0 == id;
                assert(0 < before.entries@[i].0 <= before.next);
            }
        }
        self.entries.push((id, expr));
        self.next = id;
        let ghost n = self.entries@.len() as int;
        assert forall|i: int| 0 <= i < n - 1 implies self.entries@[i] == before.entries@[i] by {}
        assert(self.wf()) by {
            assert forall|i: int| 0 <= i < n - 1 implies 0 < #[trigger] self.entries@[i].0 <= before.next by {
                assert(self.entries@[i] == before.entries@[i]);
            }
        }
        proof {
            self.lemma_lookup_at(n - 1);
            assert forall|o: u64| o != id implies self.lookup(o) == before.lookup(o) by {
                if exists|i: int| 0 <= i < before.entries@.len() && before.entries@[i].0 == o {
                    let i = choose|i: int| 0 <= i < before.entries@.len() && before.entries@[i].0 == o;
                    before.lemma_lookup_at(i);
                    self.lemma_lookup_at(i);
                } else {
                    assert forall|i: int| 0 <= i < n implies self.entries@[i].0 != o by {
                        if i < n - 1 {
                            assert(self.entries@[i] == before.entries@[i]);
                        }
                    }
                }
            }
        }
        Some(id)
    }

    /// Removes the alias `id`; true when it was declared.
    pub fn undeclare(&mut self, id: u64) -> (r: bool)
        requires
            old(self).wf(),
        ensures
            final(self).wf(),
            r == (old(self).lookup(id) is Some),
            final(self).issued() == old(self).issued(),
            final(self).lookup(id) is None,
            forall|o: u64| o != id ==> final(self).lookup(o) == old(self).lookup(o),
    {
        let ghost before = *self;
        match self.position(id) {
            None => false,
            Some(k) => {
                proof {
                    before.lemma_lookup_at(k as int);
                }
                self.entries.remove(k);
                let ghost n = before.entries@.len() as int;
                assert forall|i: int| 0 <= i < n - 1 implies #[trigger] self.entries@[i] == (if i < k {
                    before.entries@[i]
                } else {
                    before.entries@[i + 1]
                }) by {}
                assert(self.wf()) by {
                    assert forall|a: int, b: int|
                        0 <= a < b < self.entries@.len() implies self.entries@[a].0
                        != self.entries@[b].0 by {
                        let a0 = if a < k { a } else { a + 1 };
                        let b0 = if b < k { b } else { b + 1 };
                        assert(self.entries@[a] == before.entries@[a0]);
                        assert(self.entries@[b] == before.entries@[b0]);
                    }
                    assert forall|i: int| 0 <= i < self.entries@.len() implies 0
                        < #[trigger] self.entries@[i].0 <= self.next by {
                        let i0 = if i < k { i } else { i + 1 };
                        assert(self.entries@[i] == before.entries@[i0]);
                    }
                }
                assert(self.lookup(id) is None) by {
                    if exists|i: int| 0 <= i < self.entries@.len() && self.entries@[i].0 == id {
                        let i = choose|i: int| 0 <= i < self.entries@.len() && self.entries@[i].0 == id;
                        let i0 = if i < k { i } else { i + 1 };
                        assert(self.entries@[i] == before.entries@[i0]);
                        assert(i0 != k);
                    }
                }
                assert forall|o: u64| o != id implies self.lookup(o) == before.lookup(o) by {
                    if exists|i: int| 0 <= i < before.entries@.len() && before.entries@[i].0 == o {
                        let i = choose|i: int| 0 <= i < before.entries@.len() && before.entries@[i].0 == o;
                        before.lemma_lookup_at(i);
                        assert(i != k);
                        let j = if i < k { i } else { i - 1 };
                        assert(self.entries@[j] == before.entries@[i]);
                        self.lemma_lookup_at(j);
                    } else {
                        if exists|j: int| 0 <= j < self.entries@.len() && self.entries@[j].0 == o {
                            let j = choose|j: int| 0 <= j < self.entries@.len() && self.entries@[j].0 == o;
                            let j0 = if j < k { j } else { j + 1 };
                            assert(self.entries@[j] == before.entries@[j0]);
                        }
                    }
                }
                true
            },
        }
    }

    /// The full expression of `k`, or `None` when its alias is not declared.
    pub fn resolve(&self, k: &KeyExpr) -> (r: Option<String>)
        requires
            self.wf(),
        ensures
            match r {
                Some(s) => self.expansion(*k) == Some(s@),
                None => self.expansion(*k) is None,
            },
    {
        let scope = k.scope();
        if scope == 0 {
            return Some(k.suffix().to_owned());
        }
        match self.position(scope) {
            None => None,
            Some(i) => {
                proof {
                    self.lemma_lookup_at(i as int);
                }
                let mut s = self.entries[i].1.clone();
                s.append(k.suffix());
                Some(s)
            },
        }
    }
}

} // verus!
