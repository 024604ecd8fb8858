//! Small ordered collections keyed by strings.
//!
//! A [`StrSet`] is a list of distinct strings and a [`StrMap`] a list of entries with distinct
//! keys; both keep the order in which the elements first came in. Their views are sequences, so a
//! contract can speak of membership and of order alike. What each operation does is one of the
//! spec functions of this module, and the lemmas below say how these act on membership and lookup.
//!
//! The hash collections of std leave two things open that the contracts here speak of: with keys of
//! type `String` nothing is known of what a lookup gives after an insertion, and the order in which
//! they are walked, which decides the order of replies, differs from run to run.
use crate::text::str_eq;
use vstd::prelude::*;

verus! {

broadcast use vstd::string::group_string_axioms;

// ── Sets ────────────────────────────────────────────────────────────

/// `s` with `x` in it: unchanged when it is there already, else appended.
pub open spec fn set_insert<T>(s: Seq<T>, x: T) -> Seq<T> {
    if s.contains(x) {
        s
    } else {
        s.push(x)
    }
}

/// `s` without `x`, the other elements in their order.
pub open spec fn set_remove<T>(s: Seq<T>, x: T) -> Seq<T> {
    s.filter(|y: T| y != x)
}

/// Membership after an insertion.
pub broadcast proof fn lemma_set_insert_contains<T>(s: Seq<T>, x: T, y: T)
    ensures
        #[trigger] set_insert(s, x).contains(y) <==> (s.contains(y) || y == x),
{
    if !s.contains(x) {
        if s.contains(y) {
            let i = choose|i: int| 0 <= i < s.len() && s[i] == y;
            assert(s.push(x)[i] == y);
        }
        if y == x {
            assert(s.push(x)[s.len() as int] == y);
        }
        if s.push(x).contains(y) && y != x {
            let i = choose|i: int| 0 <= i < s.push(x).len() && s.push(x)[i] == y;
            assert(s[i] == y);
        }
    }
}

/// Membership after a removal.
pub broadcast proof fn lemma_set_remove_contains<T>(s: Seq<T>, x: T, y: T)
    ensures
        #[trigger] set_remove(s, x).contains(y) <==> (s.contains(y) && y != x),
{
    broadcast use vstd::seq_lib::group_filter_ensures;

    let p = |z: T| z != x;
    if s.contains(y) && y != x {
        let i = choose|i: int| 0 <= i < s.len() && s[i] == y;
        assert(p(s[i]));
        assert(s.filter(p).contains(s[i]));
    }
    if s.filter(p).contains(y) {
        let i = choose|i: int| 0 <= i < s.filter(p).len() && s.filter(p)[i] == y;
        assert(p(s.filter(p)[i]));
        s.lemma_filter_contains_rev(p, y);
    }
}

/// Removing what is not there changes nothing.
pub proof fn lemma_set_remove_absent<T>(s: Seq<T>, x: T)
    requires
        !s.contains(x),
    ensures
        set_remove(s, x) == s,
    decreases s.len(),
{
    reveal(Seq::filter);
    if s.len() > 0 {
        let rest = s.drop_last();
        assert forall|i: int| 0 <= i < rest.len() implies rest[i] != x by {
            assert(s.contains(s[i]));
        }
        assert(!rest.contains(x));
        lemma_set_remove_absent(rest, x);
        assert(s.contains(s.last()));
        assert(s == rest.push(s.last()));
    }
}

/// Insertion keeps the elements distinct.
pub proof fn lemma_set_insert_distinct<T>(s: Seq<T>, x: T)
    requires
        s.no_duplicates(),
    ensures
        set_insert(s, x).no_duplicates(),
{
    assert forall|i: int, j: int|
        0 <= i < set_insert(s, x).len() && 0 <= j < set_insert(s, x).len() && i
            != j implies set_insert(s, x)[i] != set_insert(s, x)[j] by {
        if !s.contains(x) {
            if i < s.len() {
                assert(s.contains(s[i]));
            }
            if j < s.len() {
                assert(s.contains(s[j]));
            }
        }
    }
}

/// Removal keeps the elements distinct.
pub proof fn lemma_set_remove_distinct<T>(s: Seq<T>, x: T)
    requires
        s.no_duplicates(),
    ensures
        set_remove(s, x).no_duplicates(),
    decreases s.len(),
{
    reveal(Seq::filter);
    if s.len() > 0 {
        let rest = s.drop_last();
        lemma_set_remove_distinct(rest, x);
        let last = s.last();
        if last != x {
            let f = set_remove(rest, x);
            assert(!rest.contains(last)) by {
                if rest.contains(last) {
                    let i = choose|i: int| 0 <= i < rest.len() && rest[i] == last;
                    assert(s[i] == s[s.len() - 1]);
                }
            }
            lemma_set_remove_contains(rest, x, last);
            assert forall|i: int, j: int|
                0 <= i < f.push(last).len() && 0 <= j < f.push(last).len() && i != j implies f.push(
                last,
            )[i] != f.push(last)[j] by {
                if i < f.len() {
                    assert(f.contains(f[i]));
                }
                if j < f.len() {
                    assert(f.contains(f[j]));
                }
            }
        }
    }
}

/// A set of strings, in the order in which they were first inserted.
#[derive(Debug)]
pub struct StrSet {
    items: Vec<String>,
}

impl View for StrSet {
    type V = Seq<Seq<char>>;

    closed spec fn view(&self) -> Seq<Seq<char>> {
        self.items.deep_view()
    }
}

impl DeepView for StrSet {
    type V = Seq<Seq<char>>;

    open spec fn deep_view(&self) -> Seq<Seq<char>> {
        self.view()
    }
}

impl StrSet {
    /// No string occurs twice.
    pub open spec fn wf(&self) -> bool {
        self@.no_duplicates()
    }

    /// The empty set.
    pub fn new() -> (r: StrSet)
        ensures
            r@ == Seq::<Seq<char>>::empty(),
            r.wf(),
    {
        let r = StrSet { items: Vec::new() };
        assert(r@ =~= Seq::<Seq<char>>::empty());
        r
    }

    /// How many strings the set holds.
    pub fn len(&self) -> (n: usize)
        ensures
            n == self@.len(),
    {
        self.items.len()
    }

    /// Whether the set holds no string.
    pub fn is_empty(&self) -> (b: bool)
        ensures
            b == (self@.len() == 0),
    {
        self.items.len() == 0
    }

    /// The string at position `i` of the insertion order.
    pub fn at(&self, i: usize) -> (s: &String)
        requires
            i < self@.len(),
        ensures
            s@ == self@[i as int],
    {
        &self.items[i]
    }

    /// Whether `x` is in the set.
    pub fn contains(&self, x: &str) -> (b: bool)
        ensures
            b == self@.contains(x@),
    {
        let mut i: usize = 0;
        while i < self.items.len()
            invariant
                i <= self.items.len(),
                forall|j: int| 0 <= j < i ==> self@[j] != x@,
            decreases self.items.len() - i,
        {
            if str_eq(self.items[i].as_str(), x) {
                assert(self@[i as int] == x@);
                return true;
            }
            i = i + 1;
        }
        false
    }

    /// Puts `x` into the set; tells whether it was new.
    pub fn insert(&mut self, x: String) -> (fresh: bool)
        ensures
            final(self)@ == set_insert(old(self)@, x@),
            fresh == !old(self)@.contains(x@),
            old(self).wf() ==> final(self).wf(),
    {
        let present = self.contains(x.as_str());
        proof {
            if self.wf() {
                lemma_set_insert_distinct(self@, x@);
            }
        }
        let ghost before = self@;
        if !present {
            self.items.push(x);
            assert(self@ =~= before.push(x@));
        }
        !present
    }

    /// Takes `x` out of the set; tells whether it was there.
    pub fn remove(&mut self, x: &str) -> (was: bool)
        ensures
            final(self)@ == set_remove(old(self)@, x@),
            was == old(self)@.contains(x@),
            old(self).wf() ==> final(self).wf(),
    {
        let ghost before = self@;
        proof {
            if self.wf() {
                lemma_set_remove_distinct(self@, x@);
            }
        }
        let was = self.contains(x);
        let mut kept: Vec<String> = Vec::new();
        let mut i: usize = 0;
        while i < self.items.len()
            invariant
                i <= self.items.len(),
                self@ == before,
                self.items.deep_view() == before,
                kept.deep_view() == set_remove(before.take(i as int), x@),
            decreases self.items.len() - i,
        {
            let ghost prev = kept.deep_view();
            assert(before.take(i + 1).drop_last() =~= before.take(i as int));
            assert(before[i as int] == self.items[i as int]@);
            reveal(Seq::filter);
            if !str_eq(self.items[i].as_str(), x) {
                kept.push(self.items[i].clone());
                assert(kept.deep_view() =~= prev.push(before[i as int]));
            }
            i = i + 1;
        }
        assert(before.take(i as int) =~= before);
        self.items = kept;
        was
    }

    /// Takes every string out of the set.
    pub fn clear(&mut self)
        ensures
            final(self)@ == Seq::<Seq<char>>::empty(),
            final(self).wf(),
    {
        self.items = Vec::new();
        assert(self@ =~= Seq::<Seq<char>>::empty());
    }
}

// ── Maps ────────────────────────────────────────────────────────────

/// Position of the first entry of `m` under `k`.
pub open spec fn map_find<V>(m: Seq<(Seq<char>, V)>, k: Seq<char>) -> Option<int>
    decreases m.len(),
{
    if m.len() == 0 {
        None
    } else {
        match map_find(m.drop_last(), k) {
            Some(i) => Some(i),
            None => if m.last().0 == k {
                Some(m.len() - 1)
            } else {
                None
            },
        }
    }
}

/// What `m` holds under `k`.
pub open spec fn map_get<V>(m: Seq<(Seq<char>, V)>, k: Seq<char>) -> Option<V> {
    match map_find(m, k) {
        Some(i) => Some(m[i].1),
        None => None,
    }
}

/// Whether `m` has an entry under `k`.
pub open spec fn map_has<V>(m: Seq<(Seq<char>, V)>, k: Seq<char>) -> bool {
    map_find(m, k) is Some
}

/// `m` with `v` under `k`: the entry keeps its place where there is one, else it comes last.
pub open spec fn map_put<V>(m: Seq<(Seq<char>, V)>, k: Seq<char>, v: V) -> Seq<(Seq<char>, V)> {
    match map_find(m, k) {
        Some(i) => m.update(i, (k, v)),
        None => m.push((k, v)),
    }
}

/// `m` without an entry under `k`, the other entries in their order.
pub open spec fn map_del<V>(m: Seq<(Seq<char>, V)>, k: Seq<char>) -> Seq<(Seq<char>, V)> {
    m.filter(|e: (Seq<char>, V)| e.0 != k)
}

/// No key occurs twice.
pub open spec fn map_distinct<V>(m: Seq<(Seq<char>, V)>) -> bool {
    forall|i: int, j: int| 0 <= i < j < m.len() ==> (#[trigger] m[i]).0 != (#[trigger] m[j]).0
}

/// `map_find` gives the first position whose key is `k`.
pub proof fn lemma_map_find<V>(m: Seq<(Seq<char>, V)>, k: Seq<char>)
    ensures
        map_find(m, k) matches Some(i) ==> 0 <= i < m.len() && m[i].0 == k && (forall|j: int|
            0 <= j < i ==> (#[trigger] m[j]).0 != k),
        map_find(m, k) is None ==> (forall|j: int|
            0 <= j < m.len() ==> (#[trigger] m[j]).0 != k),
    decreases m.len(),
{
    if m.len() > 0 {
        lemma_map_find(m.drop_last(), k);
        assert forall|j: int| 0 <= j < m.len() - 1 implies m.drop_last()[j] == #[trigger] m[j] by {}
    }
}

/// A position that is the first with key `k` is what `map_find` gives.
pub proof fn lemma_map_find_is<V>(m: Seq<(Seq<char>, V)>, k: Seq<char>, i: int)
    requires
        0 <= i < m.len(),
        m[i].0 == k,
        forall|j: int| 0 <= j < i ==> (#[trigger] m[j]).0 != k,
    ensures
        map_find(m, k) == Some(i),
{
    lemma_map_find(m, k);
    match map_find(m, k) {
        Some(n) => {
            if n < i {
                assert(m[n].0 != k);
            }
            if i < n {
                assert(m[i].0 != k);
            }
        },
        None => {
            assert(m[i].0 != k);
        },
    }
}

/// Where no entry has key `k`, `map_find` gives nothing.
pub proof fn lemma_map_find_none<V>(m: Seq<(Seq<char>, V)>, k: Seq<char>)
    requires
        forall|j: int| 0 <= j < m.len() ==> (#[trigger] m[j]).0 != k,
    ensures
        map_find(m, k) is None,
{
    lemma_map_find(m, k);
}

/// Lookup after a write.
pub broadcast proof fn lemma_map_put_get<V>(
    m: Seq<(Seq<char>, V)>,
    k: Seq<char>,
    v: V,
    q: Seq<char>,
)
    ensures
        #[trigger] map_get(map_put(m, k, v), q) == (if q == k {
            Some(v)
        } else {
            map_get(m, q)
        }),
{
    let p = map_put(m, k, v);
    lemma_map_find(m, k);
    lemma_map_find(m, q);
    match map_find(m, k) {
        Some(i) => {
            assert forall|j: int| 0 <= j < p.len() implies (#[trigger] p[j]).0 == m[j].0 by {}
            match map_find(m, q) {
                Some(n) => {
                    lemma_map_find_is(p, q, n);
                },
                None => {
                    lemma_map_find_none(p, q);
                },
            }
        },
        None => {
            assert forall|j: int| 0 <= j < m.len() implies (#[trigger] p[j]) == m[j] by {}
            if q == k {
                lemma_map_find_is(p, q, m.len() as int);
            } else {
                match map_find(m, q) {
                    Some(n) => {
                        lemma_map_find_is(p, q, n);
                    },
                    None => {
                        lemma_map_find_none(p, q);
                    },
                }
            }
        },
    }
}

/// Lookup after a deletion.
pub broadcast proof fn lemma_map_del_get<V>(m: Seq<(Seq<char>, V)>, k: Seq<char>, q: Seq<char>)
    ensures
        #[trigger] map_get(map_del(m, k), q) == (if q == k {
            None
        } else {
            map_get(m, q)
        }),
    decreases m.len(),
{
    reveal(Seq::filter);
    if m.len() > 0 {
        let rest = m.drop_last();
        lemma_map_del_get(rest, k, q);
        let last = m.last();
        let d = map_del(rest, k);
        if last.0 != k {
            assert(map_del(m, k) == d.push(last));
            assert(d.push(last).drop_last() =~= d);
            lemma_map_find(d, q);
            lemma_map_find(rest, q);
        } else {
            assert(map_del(m, k) == d);
            lemma_map_find(rest, q);
        }
    }
}

/// A write keeps the keys distinct.
pub proof fn lemma_map_put_distinct<V>(m: Seq<(Seq<char>, V)>, k: Seq<char>, v: V)
    requires
        map_distinct(m),
    ensures
        map_distinct(map_put(m, k, v)),
{
    lemma_map_find(m, k);
    let p = map_put(m, k, v);
    assert forall|i: int, j: int| 0 <= i < j < p.len() implies (#[trigger] p[i]).0 != (
    #[trigger] p[j]).0 by {
        match map_find(m, k) {
            Some(n) => {
                assert(p[i].0 == m[i].0);
                assert(p[j].0 == m[j].0);
            },
            None => {
                assert(p[i] == m[i]);
                if j < m.len() {
                    assert(p[j] == m[j]);
                }
            },
        }
    }
}

/// A deletion keeps the keys distinct.
pub proof fn lemma_map_del_distinct<V>(m: Seq<(Seq<char>, V)>, k: Seq<char>)
    requires
        map_distinct(m),
    ensures
        map_distinct(map_del(m, k)),
    decreases m.len(),
{
    reveal(Seq::filter);
    if m.len() > 0 {
        let rest = m.drop_last();
        assert(map_distinct(rest));
        lemma_map_del_distinct(rest, k);
        let last = m.last();
        let d = map_del(rest, k);
        if last.0 != k {
            assert(map_del(m, k) == d.push(last));
            lemma_map_del_get(rest, k, last.0);
            lemma_map_find(d, last.0);
            lemma_map_find(rest, last.0);
            match map_find(rest, last.0) {
                Some(i) => {
                    assert(m[i].0 != m[m.len() - 1].0);
                },
                None => {},
            }
            assert forall|i: int, j: int| 0 <= i < j < d.push(last).len() implies (
            #[trigger] d.push(last)[i]).0 != (#[trigger] d.push(last)[j]).0 by {
                assert(d.push(last)[i] == d[i]);
                if j < d.len() {
                    assert(d.push(last)[j] == d[j]);
                }
            }
        }
    }
}

/// A map from strings to values, in the order in which the keys were first written.
#[derive(Debug)]
pub struct StrMap<V> {
    entries: Vec<(String, V)>,
}

impl<V: DeepView> View for StrMap<V> {
    type V = Seq<(Seq<char>, V::V)>;

    closed spec fn view(&self) -> Seq<(Seq<char>, V::V)> {
        self.entries.deep_view()
    }
}

impl<V: DeepView> DeepView for StrMap<V> {
    type V = Seq<(Seq<char>, V::V)>;

    open spec fn deep_view(&self) -> Seq<(Seq<char>, V::V)> {
        self.view()
    }
}

impl<V: DeepView> StrMap<V> {
    /// No key occurs twice.
    pub open spec fn wf(&self) -> bool {
        map_distinct(self@)
    }

    /// The empty map.
    pub fn new() -> (r: StrMap<V>)
        ensures
            r@ == Seq::<(Seq<char>, V::V)>::empty(),
            r.wf(),
    {
        let r = StrMap { entries: Vec::new() };
        assert(r@ =~= Seq::<(Seq<char>, V::V)>::empty());
        r
    }

    /// How many entries the map has.
    pub fn len(&self) -> (n: usize)
        ensures
            n == self@.len(),
    {
        self.entries.len()
    }

    /// Whether the map has no entry.
    pub fn is_empty(&self) -> (b: bool)
        ensures
            b == (self@.len() == 0),
    {
        self.entries.len() == 0
    }

    /// The key at position `i`.
    pub fn key_at(&self, i: usize) -> (k: &String)
        requires
            i < self@.len(),
        ensures
            k@ == self@[i as int].0,
    {
        &self.entries[i].0
    }

    /// The value at position `i`.
    pub fn value_at(&self, i: usize) -> (v: &V)
        requires
            i < self@.len(),
        ensures
            v.deep_view() == self@[i as int].1,
    {
        &self.entries[i].1
    }

    /// Position of the entry under `k`.
    fn position(&self, k: &str) -> (r: Option<usize>)
        ensures
            match r {
                Some(i) => map_find(self@, k@) == Some(i as int) && i < self@.len(),
                None => map_find(self@, k@) is None,
            },
    {
        let mut i: usize = 0;
        while i < self.entries.len()
            invariant
                i <= self.entries.len(),
                forall|j: int| 0 <= j < i ==> (#[trigger] self@[j]).0 != k@,
            decreases self.entries.len() - i,
        {
            assert(self@[i as int].0 == self.entries[i as int].0@);
            if str_eq(self.entries[i].0.as_str(), k) {
                proof {
                    lemma_map_find_is(self@, k@, i as int);
                }
                return Some(i);
            }
            i = i + 1;
        }
        proof {
            lemma_map_find_none(self@, k@);
        }
        None
    }

    /// The value under `k`.
    pub fn get(&self, k: &str) -> (r: Option<&V>)
        ensures
            r.deep_view() == map_get(self@, k@),
    {
        match self.position(k) {
            Some(i) => {
                proof {
                    lemma_map_find(self@, k@);
                }
                Some(&self.entries[i].1)
            },
            None => None,
        }
    }

    /// Whether there is a value under `k`.
    pub fn contains_key(&self, k: &str) -> (b: bool)
        ensures
            b == map_has(self@, k@),
    {
        self.position(k).is_some()
    }

    /// Writes `v` under `k`.
    pub fn insert(&mut self, k: String, v: V)
        ensures
            final(self)@ == map_put(old(self)@, k@, v.deep_view()),
            old(self).wf() ==> final(self).wf(),
    {
        let ghost before = self@;
        proof {
            if self.wf() {
                lemma_map_put_distinct(before, k@, v.deep_view());
            }
        }
        match self.position(k.as_str()) {
            Some(i) => {
                self.entries.set(i, (k, v));
                assert(self@ =~= before.update(i as int, (k@, v.deep_view())));
            },
            None => {
                self.entries.push((k, v));
                assert(self@ =~= before.push((k@, v.deep_view())));
            },
        }
    }

    /// Takes out the entry under `k`; tells whether there was one.
    pub fn remove(&mut self, k: &str) -> (was: bool)
        ensures
            final(self)@ == map_del(old(self)@, k@),
            was == map_has(old(self)@, k@),
            old(self).wf() ==> final(self).wf(),
    {
        let ghost before = self@;
        proof {
            if self.wf() {
                lemma_map_del_distinct(before, k@);
            }
            lemma_map_find(before, k@);
        }
        let was = self.contains_key(k);
        let mut i: usize = 0;
        assert(before.take(0) =~= Seq::<(Seq<char>, V::V)>::empty());
        assert(map_del(before.take(0), k@) =~= Seq::<(Seq<char>, V::V)>::empty()) by {
            reveal(Seq::filter);
        }
        let ghost mut seen: int = 0;
        while i < self.entries.len()
            invariant
                0 <= seen <= before.len(),
                i <= self@.len(),
                self@.len() - i == before.len() - seen,
                self@.skip(i as int) == before.skip(seen),
                self@.take(i as int) == map_del(before.take(seen), k@),
            decreases self@.len() - i,
        {
            let ghost cur = self@;
            assert(cur.skip(i as int)[0] == before.skip(seen)[0]);
            assert(cur[i as int] == before[seen]);
            assert(cur[i as int].0 == self.entries[i as int].0@);
            assert(before.take(seen + 1).drop_last() =~= before.take(seen));
            reveal(Seq::filter);
            if str_eq(self.entries[i].0.as_str(), k) {
                let gone = self.entries.remove(i);
                assert(self@ =~= cur.remove(i as int));
                assert(self@.skip(i as int) =~= cur.skip(i as int).skip(1));
                assert(self@.take(i as int) =~= cur.take(i as int));
            } else {
                assert(cur.take(i + 1) =~= cur.take(i as int).push(before[seen]));
                assert(cur.skip(i + 1) =~= cur.skip(i as int).skip(1));
                i = i + 1;
            }
            assert(before.skip(seen + 1) =~= before.skip(seen).skip(1));
            proof {
                seen = seen + 1;
            }
        }
        assert(before.take(seen) =~= before);
        assert(self@.take(i as int) =~= self@);
        was
    }

    /// Takes out the entry at position `i`.
    pub fn remove_at(&mut self, i: usize)
        requires
            i < old(self)@.len(),
        ensures
            final(self)@ == old(self)@.remove(i as int),
            old(self).wf() ==> final(self).wf(),
    {
        let ghost before = self@;
        let gone = self.entries.remove(i);
        assert(self@ =~= before.remove(i as int));
    }

    /// The value at position `i`, for writing.
    pub fn value_at_mut(&mut self, i: usize) -> (v: &mut V)
        requires
            i < old(self)@.len(),
        ensures
            (*v).deep_view() == old(self)@[i as int].1,
            final(self)@ == old(self)@.update(
                i as int,
                (old(self)@[i as int].0, (*final(v)).deep_view()),
            ),
    {
        let e = &mut self.entries[i];
        &mut e.1
    }

    /// The value under `k`, for writing.
    pub fn get_mut(&mut self, k: &str) -> (r: Option<&mut V>)
        ensures
            match r {
                Some(v) => {
                    &&& map_get(old(self)@, k@) == Some((*v).deep_view())
                    &&& final(self)@ == map_put(old(self)@, k@, (*final(v)).deep_view())
                },
                None => map_get(old(self)@, k@) is None && final(self)@ == old(self)@,
            },
    {
        let ghost before = self@;
        match self.position(k) {
            Some(i) => {
                proof {
                    lemma_map_find(before, k@);
                }
                let e = &mut self.entries[i];
                Some(&mut e.1)
            },
            None => None,
        }
    }
}

// ── Copies ──────────────────────────────────────────────────────────

/// Values that can be copied without change of content.
pub trait Dup: DeepView + Sized {
    /// A value of the same content.
    fn dup(&self) -> (r: Self)
        ensures
            r.deep_view() == self.deep_view(),
    ;
}

impl Dup for String {
    fn dup(&self) -> (r: String) {
        self.clone()
    }
}

impl Dup for bool {
    fn dup(&self) -> (r: bool) {
        *self
    }
}

impl Dup for u64 {
    fn dup(&self) -> (r: u64) {
        *self
    }
}

impl Dup for i64 {
    fn dup(&self) -> (r: i64) {
        *self
    }
}

impl Dup for u32 {
    fn dup(&self) -> (r: u32) {
        *self
    }
}

impl Dup for u8 {
    fn dup(&self) -> (r: u8) {
        *self
    }
}

impl Dup for usize {
    fn dup(&self) -> (r: usize) {
        *self
    }
}

impl<T: Dup> Dup for Option<T> {
    fn dup(&self) -> (r: Option<T>) {
        match self {
            Some(x) => Some(x.dup()),
            None => None,
        }
    }
}

impl<T: Dup> Dup for Vec<T> {
    fn dup(&self) -> (r: Vec<T>) {
        let mut out: Vec<T> = Vec::new();
        let mut i: usize = 0;
        while i < self.len()
            invariant
                i <= self.len(),
                out.deep_view() == self.deep_view().take(i as int),
            decreases self.len() - i,
        {
            let ghost prev = out.deep_view();
            out.push(self[i].dup());
            assert(out.deep_view() =~= prev.push(self@[i as int].deep_view()));
            i = i + 1;
            assert(out.deep_view() =~= self.deep_view().take(i as int));
        }
        assert(self.deep_view().take(i as int) =~= self.deep_view());
        out
    }
}

impl StrSet {
    /// The strings of the set, in their order.
    pub fn to_vec(&self) -> (r: Vec<String>)
        ensures
            r.deep_view() == self@,
    {
        self.items.dup()
    }
}

impl Dup for StrSet {
    fn dup(&self) -> (r: StrSet) {
        StrSet { items: self.items.dup() }
    }
}

impl<V: Dup> Dup for StrMap<V> {
    fn dup(&self) -> (r: StrMap<V>) {
        let mut out: Vec<(String, V)> = Vec::new();
        let mut i: usize = 0;
        while i < self.entries.len()
            invariant
                i <= self.entries.len(),
                out.deep_view() == self@.take(i as int),
            decreases self.entries.len() - i,
        {
            let ghost prev = out.deep_view();
            out.push((self.entries[i].0.clone(), self.entries[i].1.dup()));
            assert(out.deep_view() =~= prev.push(self@[i as int]));
            i = i + 1;
            assert(out.deep_view() =~= self@.take(i as int));
        }
        assert(self@.take(i as int) =~= self@);
        StrMap { entries: out }
    }
}

} // verus!
