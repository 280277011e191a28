//! Property lists: `;`-separated `key=value` entries with unique keys, in the
//! order they were written, as value selectors carry them.

use crate::text::{
    find_char, has_char, index_of, index_of_any, lemma_index_of_any, slice, split, split_on,
    string_eq, views,
};
use vstd::prelude::*;

verus! {

/// What went wrong while parsing a selector or a property list.
#[derive(Debug, Clone, Copy, PartialEq, Eq, Structural)]
pub enum ParseErrorKind {
    /// A property without `=`.
    MalformedProperty,
    /// A property key given twice.
    DuplicateProperty,
    /// A `(` without its `)`.
    UnclosedProperties,
    /// A `[` without its `]`.
    UnclosedFragment,
    /// Characters after the last recognised part.
    TrailingCharacters,
}

/// A parse failure and the token that caused it.
#[derive(Debug)]
pub struct ParseError {
    pub kind: ParseErrorKind,
    pub token: String,
}

impl View for ParseError {
    type V = (ParseErrorKind, Seq<char>);

    open spec fn view(&self) -> (ParseErrorKind, Seq<char>) {
        (self.kind, self.token@)
    }
}

pub type Entries = Seq<(Seq<char>, Seq<char>)>;

/// Whether some entry of `m` has the key `k`.
pub open spec fn has_key(m: Entries, k: Seq<char>) -> bool {
    exists|j: int| 0 <= j < m.len() && m[j].0 == k
}

/// No two entries share a key.
pub open spec fn unique_keys(m: Entries) -> bool {
    forall|i: int, j: int| 0 <= i < j < m.len() ==> m[i].0 != m[j].0
}

/// The text of one entry: `key=value`.
pub open spec fn entry_text(kv: (Seq<char>, Seq<char>)) -> Seq<char> {
    kv.0 + seq!['='] + kv.1
}

pub open spec fn entry_texts(m: Entries) -> Seq<Seq<char>> {
    m.map_values(|kv: (Seq<char>, Seq<char>)| entry_text(kv))
}

/// The entries joined with `;`.
pub open spec fn join_props(m: Entries) -> Seq<char>
    decreases m.len(),
{
    if m.len() == 0 {
        Seq::empty()
    } else if m.len() == 1 {
        entry_text(m[0])
    } else {
        join_props(m.drop_last()) + seq![';'] + entry_text(m.last())
    }
}

/// A piece split at its first `=`; `None` when it has no `=`.
pub open spec fn parse_pair(p: Seq<char>) -> Option<(Seq<char>, Seq<char>)> {
    let i = index_of(p, '=');
    if i < p.len() {
        Some((p.take(i), p.skip(i + 1)))
    } else {
        None
    }
}

/// The entries of a list of pieces; the first malformed piece or repeated key
/// is reported.
pub open spec fn parse_entries(pieces: Seq<Seq<char>>) -> Result<Entries, (ParseErrorKind, Seq<char>)>
    decreases pieces.len(),
{
    if pieces.len() == 0 {
        Ok(Seq::empty())
    } else {
        match parse_entries(pieces.drop_last()) {
            Err(e) => Err(e),
            Ok(acc) => match parse_pair(pieces.last()) {
                None => Err((ParseErrorKind::MalformedProperty, pieces.last())),
                Some(kv) => if has_key(acc, kv.0) {
                    Err((ParseErrorKind::DuplicateProperty, kv.0))
                } else {
                    Ok(acc.push(kv))
                },
            },
        }
    }
}

/// The property list that a text stands for: the empty text is the empty list.
pub open spec fn parse_props(t: Seq<char>) -> Result<Entries, (ParseErrorKind, Seq<char>)> {
    if t.len() == 0 {
        Ok(Seq::empty())
    } else {
        parse_entries(split_on(t, ';'))
    }
}

/// Entries that survive being written out and read back: keys hold neither
/// `=` nor `;`, values hold no `;`, and keys are unique.
pub open spec fn printable(m: Entries) -> bool {
    &&& unique_keys(m)
    &&& forall|i: int|
        0 <= i < m.len() ==> !has_char(#[trigger] m[i].0, '=') && !has_char(m[i].0, ';')
            && !has_char(m[i].1, ';')
}

pub open spec fn entry_views(v: Seq<(String, String)>) -> Entries {
    v.map_values(|e: (String, String)| (e.0@, e.1@))
}

/// The mapping that a list of entries with unique keys stands for.
pub open spec fn entries_map(m: Entries) -> Map<Seq<char>, Seq<char>>
    decreases m.len(),
{
    if m.len() == 0 {
        Map::empty()
    } else {
        entries_map(m.drop_last()).insert(m.last().0, m.last().1)
    }
}

/// A property list: entries with unique keys, in insertion order.
pub struct Properties {
    entries: Vec<(String, String)>,
}

impl View for Properties {
    type V = Entries;

    closed spec fn view(&self) -> Entries {
        entry_views(self.entries@)
    }
}

/// Index of the entry whose key is `k`.
fn position(entries: &Vec<(String, String)>, k: &str) -> (r: Option<usize>)
    ensures
        r is None <==> !has_key(entry_views(entries@), k@),
        r matches Some(j) ==> j < entries@.len() && entries@[j as int].0@ == k@,
{
    let n = entries.len();
    for i in 0..n
        invariant
            n == entries@.len(),
            forall|j: int| 0 <= j < i ==> entries@[j].0@ != k@,
    {
        if string_eq(entries[i].0.as_str(), k) {
            assert(entry_views(entries@)[i as int].0 == k@);
            return Some(i);
        }
    }
    assert forall|j: int| 0 <= j < entry_views(entries@).len() implies entry_views(entries@)[j].0 != k@ by {
        assert(entry_views(entries@)[j].0 == entries@[j].0@);
    }
    None
}

impl Properties {
    #[verifier::type_invariant]
    closed spec fn keys_unique(&self) -> bool {
        unique_keys(self@)
    }

    /// The empty list.
    pub fn new() -> (r: Properties)
        ensures
            r@ == Seq::<(Seq<char>, Seq<char>)>::empty(),
    {
        let r = Properties { entries: Vec::new() };
        assert(r@ =~= Seq::<(Seq<char>, Seq<char>)>::empty());
        r
    }

    /// A list made of entries whose keys are known to be unique.
    pub(crate) fn from_unique(entries: Vec<(String, String)>) -> (r: Properties)
        requires
            unique_keys(entry_views(entries@)),
        ensures
            r@ == entry_views(entries@),
    {
        Properties { entries }
    }

    /// The entries, in order.
    pub(crate) fn entries(&self) -> (r: &Vec<(String, String)>)
        ensures
            entry_views(r@) == self@,
    {
        &self.entries
    }

    pub fn len(&self) -> (r: usize)
        ensures
            r == self@.len(),
    {
        self.entries.len()
    }

    /// The value of `key`, if the list has it.
    pub fn get(&self, key: &str) -> (r: Option<&str>)
        ensures
            r is None <==> !has_key(self@, key@),
            r matches Some(v) ==> exists|j: int|
                0 <= j < self@.len() && self@[j] == (key@, v@),
    {
        match position(&self.entries, key) {
            Some(j) => {
                assert(self@[j as int] == (key@, self.entries@[j as int].1@));
                Some(self.entries[j].1.as_str())
            },
            None => None,
        }
    }

    /// The key and value of entry `i`.
    pub fn entry(&self, i: usize) -> (r: (&str, &str))
        requires
            i < self@.len(),
        ensures
            (r.0@, r.1@) == self@[i as int],
    {
        (self.entries[i].0.as_str(), self.entries[i].1.as_str())
    }

    /// The list with `key` set to `value`: an existing entry keeps its place
    /// and takes the new value, a new key is appended.
    pub fn insert(self, key: String, value: String) -> (r: Properties)
        ensures
            has_key(self@, key@) ==> exists|j: int|
                0 <= j < self@.len() && self@[j].0 == key@ && r@ == self@.update(
                    j,
                    (key@, value@),
                ),
            !has_key(self@, key@) ==> r@ == self@.push((key@, value@)),
    {
        proof {
            use_type_invariant(&self);
        }
        let ghost before = self@;
        let ghost kv = (key@, value@);
        let mut entries = self.entries;
        match position(&entries, key.as_str()) {
            Some(j) => {
                entries.set(j, (key, value));
                assert(entry_views(entries@) =~= before.update(j as int, kv));
                assert(before[j as int].0 == kv.0);
                assert forall|a: int, b: int|
                    0 <= a < b < entry_views(entries@).len() implies entry_views(entries@)[a].0
                    != entry_views(entries@)[b].0 by {
                    assert(entry_views(entries@)[a].0 == before[a].0);
                    assert(entry_views(entries@)[b].0 == before[b].0);
                }
                Properties { entries }
            },
            None => {
                entries.push((key, value));
                assert(entry_views(entries@) =~= before.push(kv));
                assert forall|a: int, b: int|
                    0 <= a < b < entry_views(entries@).len() implies entry_views(entries@)[a].0
                    != entry_views(entries@)[b].0 by {
                    if b == before.len() {
                        assert(before[a].0 != kv.0);
                    }
                }
                Properties { entries }
            },
        }
    }

    /// Parses a property list. The empty text gives the empty list; otherwise
    /// every `;`-separated piece must hold a `=`, and no key may repeat.
    pub fn parse(s: &str) -> (r: Result<Properties, ParseError>)
        ensures
            match r {
                Ok(p) => parse_props(s@) == Ok::<Entries, (ParseErrorKind, Seq<char>)>(p@),
                Err(e) => parse_props(s@) == Err::<Entries, (ParseErrorKind, Seq<char>)>(e@),
            },
    {
        if s.unicode_len() == 0 {
            return Ok(Properties::new());
        }
        let pieces = split(s, ';');
        let ghost ps = views(pieces@);
        let mut entries: Vec<(String, String)> = Vec::new();
        let n = pieces.len();
        assert(ps.take(0) =~= Seq::<Seq<char>>::empty());
        assert(entry_views(entries@) =~= Seq::<(Seq<char>, Seq<char>)>::empty());
        for i in 0..n
            invariant
                n == pieces@.len(),
                ps == views(pieces@),
                ps == split_on(s@, ';'),
                s@.len() > 0,
                parse_entries(ps.take(i as int)) == Ok::<Entries, (ParseErrorKind, Seq<char>)>(
                    entry_views(entries@),
                ),
                unique_keys(entry_views(entries@)),
        {
            let piece = pieces[i].as_str();
            assert(piece@ == ps[i as int]);
            assert(ps.take(i + 1).drop_last() =~= ps.take(i as int));
            assert(ps.take(i + 1).last() == ps[i as int]);
            let len = piece.unicode_len();
            let eq = find_char(piece, '=');
            if eq == len {
                let token = slice(piece, 0, len);
                assert(token@ =~= ps[i as int]);
                assert(parse_pair(ps[i as int]) is None);
                let e = ParseError { kind: ParseErrorKind::MalformedProperty, token };
                proof {
                    lemma_entries_error_persists(ps, i + 1);
                }
                return Err(e);
            }
            let k = slice(piece, 0, eq);
            let v = slice(piece, eq + 1, len);
            assert(k@ =~= piece@.take(eq as int));
            assert(v@ =~= piece@.skip(eq + 1));
            assert(parse_pair(ps[i as int]) == Some((k@, v@)));
            if position(&entries, k.as_str()).is_some() {
                assert(has_key(entry_views(entries@), k@));
                assert(parse_entries(ps.take(i + 1)) == Err::<Entries, (ParseErrorKind, Seq<char>)>(
                    (ParseErrorKind::DuplicateProperty, k@),
                ));
                let e = ParseError { kind: ParseErrorKind::DuplicateProperty, token: k };
                proof {
                    lemma_entries_error_persists(ps, i + 1);
                }
                return Err(e);
            }
            let ghost before = entry_views(entries@);
            let ghost kv = (k@, v@);
            entries.push((k, v));
            assert(entry_views(entries@) =~= before.push(kv));
            assert forall|a: int, b: int|
                0 <= a < b < entry_views(entries@).len() implies entry_views(entries@)[a].0
                != entry_views(entries@)[b].0 by {
                if b == before.len() {
                    assert(before[a].0 != kv.0);
                }
            }
        }
        assert(ps.take(n as int) =~= ps);
        Ok(Properties { entries })
    }

    /// The list written out: entries as `key=value`, joined with `;`.
    pub fn to_text(&self) -> (r: String)
        ensures
            r@ == join_props(self@),
    {
        let n = self.entries.len();
        let mut out = String::new();
        let ghost m = self@;
        assert(m.take(0) =~= Seq::<(Seq<char>, Seq<char>)>::empty());
        for i in 0..n
            invariant
                n == m.len(),
                m == self@,
                out@ == join_props(m.take(i as int)),
        {
            assert(m.take(i + 1).drop_last() =~= m.take(i as int));
            assert(m.take(i + 1).last() == m[i as int]);
            assert(m[i as int] == (self.entries@[i as int].0@, self.entries@[i as int].1@));
            if i > 0 {
                out.append(";");
                proof {
                    reveal_strlit(";");
                }
            }
            out.append(self.entries[i].0.as_str());
            out.append("=");
            proof {
                reveal_strlit("=");
            }
            out.append(self.entries[i].1.as_str());
            if i == 0 {
                assert(m.take(1) =~= seq![m[0]]);
            }
            assert(out@ =~= join_props(m.take(i + 1)));
        }
        assert(m.take(n as int) =~= m);
        out
    }
}

/// An error in the entries of a prefix is the error of the whole list.
proof fn lemma_entries_error_persists(p: Seq<Seq<char>>, i: int)
    requires
        0 <= i <= p.len(),
        parse_entries(p.take(i)) is Err,
    ensures
        parse_entries(p) == parse_entries(p.take(i)),
    decreases p.len() - i,
{
    if i < p.len() {
        let q = p.drop_last();
        assert(q.take(i) =~= p.take(i));
        lemma_entries_error_persists(q, i);
    } else {
        assert(p.take(i) =~= p);
    }
}

proof fn lemma_split_single(y: Seq<char>, c: char)
    requires
        !has_char(y, c),
    ensures
        split_on(y, c) == seq![y],
    decreases y.len(),
{
    if y.len() == 0 {
        assert(y =~= Seq::<char>::empty());
    } else {
        let z = y.drop_last();
        assert(!has_char(z, c)) by {
            if has_char(z, c) {
                let k = choose|k: int| 0 <= k < z.len() && z[k] == c;
                assert(y[k] == c);
            }
        }
        lemma_split_single(z, c);
        assert(y.last() != c);
        assert(z.push(y.last()) =~= y);
        assert(seq![z].update(0, z.push(y.last())) =~= seq![y]);
    }
}

proof fn lemma_split_append(x: Seq<char>, y: Seq<char>, c: char)
    requires
        !has_char(y, c),
    ensures
        split_on(x + seq![c] + y, c) == split_on(x, c).push(y),
    decreases y.len(),
{
    let z = x + seq![c] + y;
    if y.len() == 0 {
        assert(z.drop_last() =~= x);
        assert(y =~= Seq::<char>::empty());
    } else {
        let y0 = y.drop_last();
        assert(!has_char(y0, c)) by {
            if has_char(y0, c) {
                let k = choose|k: int| 0 <= k < y0.len() && y0[k] == c;
                assert(y[k] == c);
            }
        }
        lemma_split_append(x, y0, c);
        assert(z.drop_last() =~= x + seq![c] + y0);
        assert(z.last() == y.last());
        assert(y.last() != c);
        let init = split_on(x, c).push(y0);
        assert(y0.push(y.last()) =~= y);
        assert(init.update(init.len() - 1, init.last().push(y.last())) =~= split_on(x, c).push(y));
    }
}

proof fn lemma_entry_has_no_semicolon(kv: (Seq<char>, Seq<char>))
    requires
        !has_char(kv.0, ';'),
        !has_char(kv.1, ';'),
    ensures
        !has_char(entry_text(kv), ';'),
{
    let t = entry_text(kv);
    if has_char(t, ';') {
        let k = choose|k: int| 0 <= k < t.len() && t[k] == ';';
        if k < kv.0.len() {
            assert(kv.0[k] == ';');
        } else if k > kv.0.len() {
            assert(kv.1[k - kv.0.len() - 1] == ';');
        }
    }
}

proof fn lemma_split_join(m: Entries)
    requires
        m.len() > 0,
        printable(m),
    ensures
        split_on(join_props(m), ';') == entry_texts(m),
        join_props(m).len() > 0,
    decreases m.len(),
{
    let last = m[m.len() - 1];
    assert(!has_char(m[m.len() - 1].0, ';'));
    lemma_entry_has_no_semicolon(last);
    if m.len() == 1 {
        lemma_split_single(entry_text(m[0]), ';');
        assert(entry_texts(m) =~= seq![entry_text(m[0])]);
    } else {
        let init = m.drop_last();
        assert forall|i: int| 0 <= i < init.len() implies !has_char(#[trigger] init[i].0, '=')
            && !has_char(init[i].0, ';') && !has_char(init[i].1, ';') by {
            assert(init[i] == m[i]);
        }
        lemma_split_join(init);
        lemma_split_append(join_props(init), entry_text(m.last()), ';');
        assert(entry_texts(m) =~= entry_texts(init).push(entry_text(m.last())));
    }
}

proof fn lemma_parse_entry(kv: (Seq<char>, Seq<char>))
    requires
        !has_char(kv.0, '='),
    ensures
        parse_pair(entry_text(kv)) == Some(kv),
{
    let t = entry_text(kv);
    let i = kv.0.len() as int;
    assert forall|k: int| 0 <= k < i implies t[k] != '=' && t[k] != '=' by {
        assert(t[k] == kv.0[k]);
    }
    assert(t[i] == '=');
    lemma_index_of_any(t, '=', '=', i);
    assert(t.take(i) =~= kv.0);
    assert(t.skip(i + 1) =~= kv.1);
}

proof fn lemma_parse_entries_of_texts(m: Entries)
    requires
        printable(m),
    ensures
        parse_entries(entry_texts(m)) == Ok::<Entries, (ParseErrorKind, Seq<char>)>(m),
    decreases m.len(),
{
    if m.len() == 0 {
        assert(entry_texts(m) =~= Seq::<Seq<char>>::empty());
        assert(m =~= Seq::<(Seq<char>, Seq<char>)>::empty());
    } else {
        let init = m.drop_last();
        assert forall|i: int| 0 <= i < init.len() implies !has_char(#[trigger] init[i].0, '=')
            && !has_char(init[i].0, ';') && !has_char(init[i].1, ';') by {
            assert(init[i] == m[i]);
        }
        lemma_parse_entries_of_texts(init);
        let p = entry_texts(m);
        assert(p.drop_last() =~= entry_texts(init));
        assert(!has_char(m[m.len() - 1].0, '='));
        lemma_parse_entry(m.last());
        assert(!has_key(init, m.last().0)) by {
            if has_key(init, m.last().0) {
                let j = choose|j: int| 0 <= j < init.len() && init[j].0 == m.last().0;
                assert(m[j].0 == m[m.len() - 1].0);
            }
        }
        assert(init.push(m.last()) =~= m);
    }
}

/// A list that parses has one entry per piece, each the split of its piece.
proof fn lemma_entries_follow_pieces(p: Seq<Seq<char>>)
    requires
        parse_entries(p) is Ok,
    ensures
        parse_entries(p)->Ok_0.len() == p.len(),
        forall|k: int|
            0 <= k < p.len() ==> parse_pair(#[trigger] p[k]) == Some(parse_entries(p)->Ok_0[k]),
    decreases p.len(),
{
    if p.len() > 0 {
        let q = p.drop_last();
        lemma_entries_follow_pieces(q);
        let acc = parse_entries(q)->Ok_0;
        assert forall|k: int| 0 <= k < p.len() implies parse_pair(#[trigger] p[k]) == Some(
            parse_entries(p)->Ok_0[k],
        ) by {
            if k < q.len() {
                assert(q[k] == p[k]);
            }
        }
    }
}

/// A property list in which two well-formed entries share a key is rejected;
/// when the entries before the repeat read without error, the error is
/// `DuplicateProperty` and names the repeated key.
pub proof fn lemma_repeated_key_rejected(t: Seq<char>, i: int, j: int)
    requires
        t.len() > 0,
        0 <= i < j < split_on(t, ';').len(),
        parse_pair(split_on(t, ';')[i]) is Some,
        parse_pair(split_on(t, ';')[j]) is Some,
        parse_pair(split_on(t, ';')[i])->Some_0.0 == parse_pair(split_on(t, ';')[j])->Some_0.0,
    ensures
        parse_props(t) is Err,
        parse_entries(split_on(t, ';').take(j)) is Ok ==> parse_props(t) == Err::<
            Entries,
            (ParseErrorKind, Seq<char>),
        >((ParseErrorKind::DuplicateProperty, parse_pair(split_on(t, ';')[j])->Some_0.0)),
{
    let p = split_on(t, ';');
    let pre = p.take(j + 1);
    let q = pre.drop_last();
    assert(q =~= p.take(j));
    assert(pre.last() == p[j]);
    if parse_entries(q) is Ok {
        lemma_entries_follow_pieces(q);
        let acc = parse_entries(q)->Ok_0;
        assert(q[i] == p[i]);
        assert(acc[i].0 == parse_pair(p[j])->Some_0.0);
        assert(has_key(acc, parse_pair(p[j])->Some_0.0));
    }
    lemma_entries_error_persists(p, j + 1);
}

/// Writing a property list out and parsing the text gives the same entries in
/// the same order, for every list whose keys hold neither `=` nor `;` and
/// whose values hold no `;`.
pub proof fn lemma_props_round_trip(m: Entries)
    requires
        printable(m),
    ensures
        parse_props(join_props(m)) == Ok::<Entries, (ParseErrorKind, Seq<char>)>(m),
{
    if m.len() == 0 {
        assert(m =~= Seq::<(Seq<char>, Seq<char>)>::empty());
    } else {
        lemma_split_join(m);
        lemma_parse_entries_of_texts(m);
    }
}

} // verus!
