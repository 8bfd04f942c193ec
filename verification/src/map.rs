//! A map from texts to values that lists its keys in ascending order.

use vstd::prelude::*;

use crate::text::{chars_of, same};

verus! {

/// Lexicographic order of texts by character code.
pub open spec fn text_less(a: Seq<char>, b: Seq<char>) -> bool
    decreases a.len(),
{
    if b.len() == 0 {
        false
    } else if a.len() == 0 {
        true
    } else {
        a[0] < b[0] || (a[0] == b[0] && text_less(a.drop_first(), b.drop_first()))
    }
}

pub proof fn lemma_text_less_irreflexive(a: Seq<char>)
    ensures
        !text_less(a, a),
    decreases a.len(),
{
    if a.len() > 0 {
        lemma_text_less_irreflexive(a.drop_first());
    }
}

pub proof fn lemma_text_less_total(a: Seq<char>, b: Seq<char>)
    ensures
        text_less(a, b) || text_less(b, a) || a == b,
    decreases a.len(),
{
    if a.len() > 0 && b.len() > 0 {
        lemma_text_less_total(a.drop_first(), b.drop_first());
        if a[0] == b[0] && a.drop_first() == b.drop_first() {
            assert(a =~= seq![a[0]] + a.drop_first());
            assert(b =~= seq![b[0]] + b.drop_first());
        }
    } else if a.len() == 0 && b.len() == 0 {
        assert(a =~= b);
    }
}

pub proof fn lemma_text_less_transitive(a: Seq<char>, b: Seq<char>, c: Seq<char>)
    requires
        text_less(a, b),
        text_less(b, c),
    ensures
        text_less(a, c),
    decreases a.len(),
{
    if a.len() > 0 && a[0] == b[0] && b[0] == c[0] {
        lemma_text_less_transitive(a.drop_first(), b.drop_first(), c.drop_first());
    }
}

/// Whether `a` comes before `b`.
pub fn text_is_less(a: &str, b: &str) -> (r: bool)
    ensures
        r == text_less(a@, b@),
{
    let x = chars_of(a);
    let y = chars_of(b);
    let mut i: usize = 0;
    proof {
        assert(a@.skip(0) =~= a@);
        assert(b@.skip(0) =~= b@);
    }
    loop
        invariant
            x@ == a@,
            y@ == b@,
            i <= x@.len(),
            i <= y@.len(),
            text_less(a@.skip(i as int), b@.skip(i as int)) == text_less(a@, b@),
        decreases x@.len() - i,
    {
        if i >= y.len() {
            return false;
        }
        if i >= x.len() {
            return true;
        }
        if x[i] < y[i] {
            return true;
        }
        if x[i] > y[i] {
            return false;
        }
        proof {
            assert(a@.skip(i as int).drop_first() =~= a@.skip(i + 1));
            assert(b@.skip(i as int).drop_first() =~= b@.skip(i + 1));
        }
        i = i + 1;
    }
}

/// Whether the keys of a list of entries strictly ascend.
pub open spec fn ascending<V>(e: Seq<(String, V)>) -> bool {
    forall|i: int, j: int| 0 <= i < j < e.len() ==> text_less(#[trigger] e[i].0@, #[trigger] e[j].0@)
}

/// Whether `key` stands in a list of entries.
pub open spec fn listed<V>(e: Seq<(String, V)>, key: Seq<char>) -> bool {
    exists|i: int| 0 <= i < e.len() && #[trigger] e[i].0@ == key
}

pub open spec fn position<V>(e: Seq<(String, V)>, key: Seq<char>) -> int {
    choose|i: int| 0 <= i < e.len() && #[trigger] e[i].0@ == key
}

/// The map that a list of entries stands for.
pub open spec fn entries_map<V>(e: Seq<(String, V)>) -> Map<Seq<char>, V> {
    Map::new(|key: Seq<char>| listed(e, key), |key: Seq<char>| e[position(e, key)].1)
}

pub proof fn lemma_ascending_unique<V>(e: Seq<(String, V)>, i: int, j: int)
    requires
        ascending(e),
        0 <= i < e.len(),
        0 <= j < e.len(),
        e[i].0@ == e[j].0@,
    ensures
        i == j,
{
    lemma_text_less_irreflexive(e[i].0@);
}

pub proof fn lemma_entry_in_map<V>(e: Seq<(String, V)>, i: int)
    requires
        ascending(e),
        0 <= i < e.len(),
    ensures
        entries_map(e).contains_key(e[i].0@),
        entries_map(e)[e[i].0@] == e[i].1,
{
    let key = e[i].0@;
    assert(listed(e, key));
    let p = position(e, key);
    assert(0 <= p < e.len() && e[p].0@ == key);
    lemma_ascending_unique(e, i, p);
}

/// A map from texts to values. Its keys are kept in ascending order.
#[derive(Debug, PartialEq, Eq)]
pub struct TextMap<V> {
    entries: Vec<(String, V)>,
}

impl<V> View for TextMap<V> {
    type V = Map<Seq<char>, V>;

    closed spec fn view(&self) -> Map<Seq<char>, V> {
        entries_map(self.entries@)
    }
}

impl<V> TextMap<V> {
    #[verifier::type_invariant]
    spec fn inv(self) -> bool {
        ascending(self.entries@)
    }

    /// The entries in ascending order of their keys.
    pub closed spec fn list(self) -> Seq<(String, V)> {
        self.entries@
    }

    pub fn new() -> (r: Self)
        ensures
            r@ == Map::<Seq<char>, V>::empty(),
            r.list() == Seq::<(String, V)>::empty(),
    {
        let r = TextMap { entries: Vec::new() };
        proof {
            assert(r@ =~= Map::<Seq<char>, V>::empty());
        }
        r
    }

    /// The entries of a map stand for it.
    pub proof fn lemma_list_is_map(self)
        ensures
            self@ == entries_map(self.list()),
    {
    }

    /// The number of entries. The entries stand for the map, and their keys
    /// ascend.
    pub fn len(&self) -> (r: usize)
        ensures
            r == self.list().len(),
            ascending(self.list()),
            self@ == entries_map(self.list()),
    {
        proof {
            use_type_invariant(self);
        }
        self.entries.len()
    }

    pub fn is_empty(&self) -> (r: bool)
        ensures
            r == (self.list().len() == 0),
            r == (self@ == Map::<Seq<char>, V>::empty()),
    {
        let r = self.entries.len() == 0;
        proof {
            use_type_invariant(self);
            if r {
                assert(self@ =~= Map::<Seq<char>, V>::empty());
            } else {
                lemma_entry_in_map(self.entries@, 0);
            }
        }
        r
    }

    /// The key at a place of the ascending list.
    pub fn key_at(&self, i: usize) -> (r: &String)
        requires
            i < self.list().len(),
        ensures
            *r == self.list()[i as int].0,
    {
        &self.entries[i].0
    }

    /// The value at a place of the ascending list.
    pub fn value_at(&self, i: usize) -> (r: &V)
        requires
            i < self.list().len(),
        ensures
            *r == self.list()[i as int].1,
    {
        &self.entries[i].1
    }

    /// The first place whose key is not less than `key`.
    fn place(&self, key: &str) -> (r: usize)
        ensures
            r <= self.entries@.len(),
            forall|i: int| 0 <= i < r ==> text_less(#[trigger] self.entries@[i].0@, key@),
            forall|i: int|
                r <= i < self.entries@.len() ==> !text_less(#[trigger] self.entries@[i].0@, key@),
    {
        proof {
            use_type_invariant(self);
        }
        let mut i: usize = 0;
        while i < self.entries.len() && text_is_less(self.entries[i].0.as_str(), key)
            invariant
                i <= self.entries@.len(),
                forall|k: int| 0 <= k < i ==> text_less(#[trigger] self.entries@[k].0@, key@),
            decreases self.entries@.len() - i,
        {
            i = i + 1;
        }
        proof {
            assert forall|k: int| i <= k < self.entries@.len() implies !text_less(
                #[trigger] self.entries@[k].0@,
                key@,
            ) by {
                if k > i && text_less(self.entries@[k].0@, key@) {
                    lemma_text_less_transitive(
                        self.entries@[i as int].0@,
                        self.entries@[k].0@,
                        key@,
                    );
                }
            }
        }
        i
    }

    pub fn get(&self, key: &str) -> (r: Option<&V>)
        ensures
            r is Some <==> self@.contains_key(key@),
            r matches Some(v) ==> *v == self@[key@],
    {
        proof {
            use_type_invariant(self);
        }
        let i: usize = self.place(key);
        if i < self.entries.len() && same(self.entries[i].0.as_str(), key) {
            proof {
                lemma_entry_in_map(self.entries@, i as int);
            }
            Some(&self.entries[i].1)
        } else {
            proof {
                if listed(self.entries@, key@) {
                    let p = position(self.entries@, key@);
                    assert(0 <= p < self.entries@.len() && self.entries@[p].0@ == key@);
                    lemma_text_less_irreflexive(key@);
                    if p < i {
                    } else if p > i {
                        assert(text_less(self.entries@[i as int].0@, self.entries@[p].0@));
                    }
                }
            }
            None
        }
    }

    pub fn contains_key(&self, key: &str) -> (r: bool)
        ensures
            r == self@.contains_key(key@),
    {
        self.get(key).is_some()
    }

    /// Puts a value at a key. A value that stood there is replaced.
    pub fn insert(&mut self, key: &str, value: V)
        ensures
            final(self)@ == old(self)@.insert(key@, value),
    {
        proof {
            use_type_invariant(&*self);
        }
        let i: usize = self.place(key);
        let ghost before = self.entries@;
        let present = i < self.entries.len() && same(self.entries[i].0.as_str(), key);
        let mut entries: Vec<(String, V)> = Vec::new();
        std::mem::swap(&mut entries, &mut self.entries);
        if present {
            entries.remove(i);
            entries.insert(i, (key.to_owned(), value));
            proof {
                let e = entries@;
                assert(e.len() == before.len());
                assert(forall|k: int| 0 <= k < e.len() && k != i ==> e[k] == before[k]);
                assert(e[i as int].0@ == before[i as int].0@);
                assert(ascending(e)) by {
                    assert forall|a: int, b: int| 0 <= a < b < e.len() implies text_less(
                        #[trigger] e[a].0@,
                        #[trigger] e[b].0@,
                    ) by {
                        assert(e[a].0@ == before[a].0@);
                        assert(e[b].0@ == before[b].0@);
                    }
                }
                lemma_replaced(before, e, i as int, key@, value);
            }
        } else {
            entries.insert(i, (key.to_owned(), value));
            proof {
                let e = entries@;
                lemma_inserted(before, e, i as int, key@, value);
            }
        }
        self.entries = entries;
    }

    /// Puts a value at a key that has none yet.
    pub fn insert_if_absent(&mut self, key: &str, value: V)
        ensures
            final(self)@ == (if old(self)@.contains_key(key@) {
                old(self)@
            } else {
                old(self)@.insert(key@, value)
            }),
    {
        if !self.contains_key(key) {
            self.insert(key, value);
        }
    }

    /// Takes the value at a key out of the map.
    pub fn remove(&mut self, key: &str) -> (r: Option<V>)
        ensures
            r is Some <==> old(self)@.contains_key(key@),
            r matches Some(v) ==> v == old(self)@[key@],
            final(self)@ == old(self)@.remove(key@),
    {
        proof {
            use_type_invariant(&*self);
        }
        let i: usize = self.place(key);
        let ghost before = self.entries@;
        let present = i < self.entries.len() && same(self.entries[i].0.as_str(), key);
        if present {
            let mut entries: Vec<(String, V)> = Vec::new();
            std::mem::swap(&mut entries, &mut self.entries);
            let taken = entries.remove(i);
            proof {
                lemma_entry_in_map(before, i as int);
                lemma_removed(before, entries@, i as int, key@);
            }
            self.entries = entries;
            Some(taken.1)
        } else {
            proof {
                if listed(before, key@) {
                    let p = position(before, key@);
                    assert(0 <= p < before.len() && before[p].0@ == key@);
                    lemma_text_less_irreflexive(key@);
                    if p > i {
                        assert(text_less(before[i as int].0@, before[p].0@));
                    }
                }
                assert(self@.remove(key@) =~= self@);
            }
            None
        }
    }
}

proof fn lemma_replaced<V>(
    before: Seq<(String, V)>,
    after: Seq<(String, V)>,
    i: int,
    key: Seq<char>,
    value: V,
)
    requires
        ascending(before),
        ascending(after),
        0 <= i < before.len(),
        before.len() == after.len(),
        before[i].0@ == key,
        after[i].0@ == key,
        after[i].1 == value,
        forall|k: int| 0 <= k < after.len() && k != i ==> after[k] == before[k],
    ensures
        entries_map(after) == entries_map(before).insert(key, value),
{
    let m = entries_map(before).insert(key, value);
    let n = entries_map(after);
    assert forall|k: Seq<char>| n.contains_key(k) <==> m.contains_key(k) by {
        if listed(after, k) {
            let p = position(after, k);
            assert(0 <= p < after.len() && after[p].0@ == k);
            assert(before[p].0@ == k);
        }
        if listed(before, k) {
            let p = position(before, k);
            assert(0 <= p < before.len() && before[p].0@ == k);
            assert(after[p].0@ == k);
        }
        if k == key {
            assert(after[i].0@ == k);
        }
    }
    assert forall|k: Seq<char>| n.contains_key(k) implies n[k] == m[k] by {
        let p = position(after, k);
        assert(0 <= p < after.len() && after[p].0@ == k);
        lemma_entry_in_map(after, p);
        if p == i {
        } else {
            lemma_entry_in_map(before, p);
            if k == key {
                lemma_ascending_unique(after, p, i);
            }
        }
    }
    assert(n =~= m);
}

proof fn lemma_inserted<V>(
    before: Seq<(String, V)>,
    after: Seq<(String, V)>,
    i: int,
    key: Seq<char>,
    value: V,
)
    requires
        ascending(before),
        0 <= i <= before.len(),
        exists|s: String| s@ == key && after == before.insert(i, (s, value)),
        forall|k: int| 0 <= k < i ==> text_less(#[trigger] before[k].0@, key),
        forall|k: int| i <= k < before.len() ==> !text_less(#[trigger] before[k].0@, key),
        i < before.len() ==> before[i].0@ != key,
    ensures
        ascending(after),
        entries_map(after) == entries_map(before).insert(key, value),
{
    assert(after.len() == before.len() + 1);
    assert(after[i].0@ == key && after[i].1 == value);
    assert(forall|k: int| 0 <= k < i ==> after[k] == before[k]);
    assert(forall|k: int| i < k < after.len() ==> after[k] == before[k - 1]);
    assert forall|k: int| i <= k < before.len() implies text_less(
        key,
        #[trigger] before[k].0@,
    ) by {
        lemma_text_less_total(before[k].0@, key);
        if before[k].0@ == key && k > i {
            lemma_text_less_total(before[i].0@, key);
            assert(text_less(before[i].0@, before[k].0@));
        }
    }
    assert(ascending(after)) by {
        assert forall|a: int, b: int| 0 <= a < b < after.len() implies text_less(
            #[trigger] after[a].0@,
            #[trigger] after[b].0@,
        ) by {
            if b < i {
                assert(text_less(before[a].0@, before[b].0@));
            } else if a > i {
                assert(text_less(before[a - 1].0@, before[b - 1].0@));
            } else if a == i {
                assert(text_less(key, before[b - 1].0@));
            } else if b == i {
                assert(text_less(before[a].0@, key));
            } else {
                assert(text_less(before[a].0@, before[b - 1].0@));
            }
        }
    }
    let m = entries_map(before).insert(key, value);
    let n = entries_map(after);
    assert forall|k: Seq<char>| n.contains_key(k) <==> m.contains_key(k) by {
        if listed(after, k) {
            let p = position(after, k);
            assert(0 <= p < after.len() && after[p].0@ == k);
            if p < i {
                assert(before[p].0@ == k);
            } else if p > i {
                assert(before[p - 1].0@ == k);
            }
        }
        if listed(before, k) {
            let p = position(before, k);
            assert(0 <= p < before.len() && before[p].0@ == k);
            if p < i {
                assert(after[p].0@ == k);
            } else {
                assert(after[p + 1].0@ == k);
            }
        }
        if k == key {
            assert(after[i].0@ == k);
        }
    }
    assert forall|k: Seq<char>| n.contains_key(k) implies n[k] == m[k] by {
        let p = position(after, k);
        assert(0 <= p < after.len() && after[p].0@ == k);
        lemma_entry_in_map(after, p);
        if p < i {
            lemma_entry_in_map(before, p);
            lemma_text_less_irreflexive(key);
        } else if p > i {
            lemma_entry_in_map(before, p - 1);
            lemma_text_less_irreflexive(key);
        }
    }
    assert(n =~= m);
}

proof fn lemma_removed<V>(
    before: Seq<(String, V)>,
    after: Seq<(String, V)>,
    i: int,
    key: Seq<char>,
)
    requires
        ascending(before),
        0 <= i < before.len(),
        before[i].0@ == key,
        after == before.remove(i),
    ensures
        ascending(after),
        entries_map(after) == entries_map(before).remove(key),
{
    assert(forall|k: int| 0 <= k < i ==> after[k] == before[k]);
    assert(forall|k: int| i <= k < after.len() ==> after[k] == before[k + 1]);
    assert(ascending(after)) by {
        assert forall|a: int, b: int| 0 <= a < b < after.len() implies text_less(
            #[trigger] after[a].0@,
            #[trigger] after[b].0@,
        ) by {
            let x = if a < i { a } else { a + 1 };
            let y = if b < i { b } else { b + 1 };
            assert(text_less(before[x].0@, before[y].0@));
        }
    }
    let m = entries_map(before).remove(key);
    let n = entries_map(after);
    assert forall|k: Seq<char>| n.contains_key(k) <==> m.contains_key(k) by {
        if listed(after, k) {
            let p = position(after, k);
            assert(0 <= p < after.len() && after[p].0@ == k);
            let x = if p < i { p } else { p + 1 };
            assert(before[x].0@ == k);
            if k == key {
                lemma_ascending_unique(before, x, i);
            }
        }
        if listed(before, k) && k != key {
            let p = position(before, k);
            assert(0 <= p < before.len() && before[p].0@ == k);
            let y = if p < i { p } else { p - 1 };
            assert(after[y].0@ == k);
        }
    }
    assert forall|k: Seq<char>| n.contains_key(k) implies n[k] == m[k] by {
        let p = position(after, k);
        assert(0 <= p < after.len() && after[p].0@ == k);
        lemma_entry_in_map(after, p);
        let x = if p < i { p } else { p + 1 };
        lemma_entry_in_map(before, x);
    }
    assert(n =~= m);
}

/// A copy of a map from texts to texts.
pub fn copy_text_map(m: &TextMap<String>) -> (r: TextMap<String>)
    ensures
        r@ == m@,
{
    let mut out: TextMap<String> = TextMap::new();
    let mut i: usize = 0;
    let n: usize = m.len();
    while i < n
        invariant
            i <= n,
            n == m.list().len(),
            ascending(m.list()),
            m@ == entries_map(m.list()),
            forall|k: Seq<char>| #[trigger]
                out@.contains_key(k) <==> exists|j: int|
                    0 <= j < i && #[trigger] m.list()[j].0@ == k,
            forall|j: int|
                0 <= j < i ==> out@.contains_key(#[trigger] m.list()[j].0@)
                    && out@[m.list()[j].0@] == m.list()[j].1,
        decreases n - i,
    {
        let ghost before = out@;
        let key = m.key_at(i);
        let value = m.value_at(i);
        out.insert(key.as_str(), value.clone());
        proof {
            let here = m.list()[i as int].0@;
            assert forall|k: Seq<char>| #[trigger]
                out@.contains_key(k) <==> exists|j: int|
                    0 <= j < i + 1 && #[trigger] m.list()[j].0@ == k by {
                if k == here {
                    assert(m.list()[i as int].0@ == k);
                } else if before.contains_key(k) {
                    let j = choose|j: int| 0 <= j < i && #[trigger] m.list()[j].0@ == k;
                    assert(m.list()[j].0@ == k);
                }
            }
            assert forall|j: int| 0 <= j < i + 1 implies out@.contains_key(
                #[trigger] m.list()[j].0@,
            ) && out@[m.list()[j].0@] == m.list()[j].1 by {
                if j < i {
                    lemma_text_less_irreflexive(here);
                    assert(text_less(m.list()[j].0@, m.list()[i as int].0@));
                }
            }
        }
        i = i + 1;
    }
    proof {
        assert forall|k: Seq<char>| out@.contains_key(k) implies out@[k] == m@[k] by {
            let j = choose|j: int| 0 <= j < i && #[trigger] m.list()[j].0@ == k;
            lemma_entry_in_map(m.list(), j);
        }
        assert(out@ =~= m@);
    }
    out
}

// ---------------------------------------------------------------------------
// Building a map from the entries of another
// ---------------------------------------------------------------------------

/// The map that comes from taking each entry through `f` in turn. `f` may drop
/// an entry, and a later entry replaces an earlier one of the same key.
pub open spec fn gathered<V, W>(
    list: Seq<(String, V)>,
    f: spec_fn(Seq<char>, V) -> Option<(Seq<char>, W)>,
) -> Map<Seq<char>, W>
    decreases list.len(),
{
    if list.len() == 0 {
        Map::empty()
    } else {
        let before = gathered(list.drop_last(), f);
        match f(list.last().0@, list.last().1) {
            Some((key, value)) => before.insert(key, value),
            None => before,
        }
    }
}

/// Where `f` keeps the keys of the entries, the result has the kept entries and no others.
pub proof fn lemma_gathered_in_place<V, W>(
    list: Seq<(String, V)>,
    f: spec_fn(Seq<char>, V) -> Option<(Seq<char>, W)>,
)
    requires
        ascending(list),
        forall|i: int|
            0 <= i < list.len() ==> (f((#[trigger] list[i]).0@, list[i].1) matches Some(p) ==> p.0
                == list[i].0@),
    ensures
        forall|k: Seq<char>| #[trigger]
            gathered(list, f).contains_key(k) <==> entries_map(list).contains_key(k) && f(
                k,
                entries_map(list)[k],
            ) is Some,
        forall|k: Seq<char>| #[trigger]
            gathered(list, f).contains_key(k) ==> Some((k, gathered(list, f)[k])) == f(
                k,
                entries_map(list)[k],
            ),
    decreases list.len(),
{
    let g = gathered(list, f);
    let m = entries_map(list);
    if list.len() > 0 {
        let rest = list.drop_last();
        let h = gathered(rest, f);
        let n = entries_map(rest);
        let last = list.last();
        assert forall|i: int| 0 <= i < rest.len() implies (f(
            (#[trigger] rest[i]).0@,
            rest[i].1,
        ) matches Some(p) ==> p.0 == rest[i].0@) by {
            assert(rest[i] == list[i]);
        }
        lemma_gathered_in_place(rest, f);
        lemma_entry_in_map(list, list.len() - 1);
        assert forall|k: Seq<char>| k != last.0@ implies (n.contains_key(k) <==> m.contains_key(
            k,
        )) && (n.contains_key(k) ==> n[k] == m[k]) by {
            if listed(list, k) {
                let p = position(list, k);
                assert(0 <= p < list.len() && list[p].0@ == k);
                assert(rest[p].0@ == k);
            }
            if listed(rest, k) {
                let p = position(rest, k);
                assert(0 <= p < rest.len() && rest[p].0@ == k);
                assert(list[p].0@ == k);
                lemma_entry_in_map(rest, p);
                lemma_entry_in_map(list, p);
            }
        }
        assert(!n.contains_key(last.0@)) by {
            if listed(rest, last.0@) {
                let p = position(rest, last.0@);
                assert(0 <= p < rest.len() && rest[p].0@ == last.0@);
                assert(list[p].0@ == list[list.len() - 1].0@);
                lemma_ascending_unique(list, p, list.len() - 1);
            }
        }
        assert forall|k: Seq<char>| #[trigger]
            g.contains_key(k) <==> m.contains_key(k) && f(k, m[k]) is Some by {
            if k == last.0@ {
            } else {
                assert(h.contains_key(k) <==> n.contains_key(k) && f(k, n[k]) is Some);
            }
        }
        assert forall|k: Seq<char>| #[trigger] g.contains_key(k) implies Some((k, g[k])) == f(
            k,
            m[k],
        ) by {
            if k != last.0@ {
                assert(h.contains_key(k));
            }
        }
    }
}

/// The least key of a set for which `p` holds.
pub open spec fn least_key(
    keys: Set<Seq<char>>,
    p: spec_fn(Seq<char>) -> bool,
) -> Option<Seq<char>> {
    if exists|k: Seq<char>| is_least(keys, p, k) {
        Some(choose|k: Seq<char>| is_least(keys, p, k))
    } else {
        None
    }
}

pub open spec fn is_least(
    keys: Set<Seq<char>>,
    p: spec_fn(Seq<char>) -> bool,
    k: Seq<char>,
) -> bool {
    keys.contains(k) && p(k) && forall|o: Seq<char>| #[trigger]
        keys.contains(o) && p(o) ==> o == k || text_less(k, o)
}

pub proof fn lemma_least_key(keys: Set<Seq<char>>, p: spec_fn(Seq<char>) -> bool, k: Seq<char>)
    requires
        is_least(keys, p, k),
    ensures
        least_key(keys, p) == Some(k),
{
    let c = choose|c: Seq<char>| is_least(keys, p, c);
    assert(is_least(keys, p, c));
    if c != k {
        assert(keys.contains(k) && keys.contains(c));
        lemma_text_less_transitive(c, k, c);
        lemma_text_less_irreflexive(c);
    }
}

pub proof fn lemma_no_least_key(keys: Set<Seq<char>>, p: spec_fn(Seq<char>) -> bool)
    requires
        forall|k: Seq<char>| #[trigger] keys.contains(k) ==> !p(k),
    ensures
        least_key(keys, p) is None,
{
    if exists|k: Seq<char>| is_least(keys, p, k) {
        let c = choose|c: Seq<char>| is_least(keys, p, c);
        assert(keys.contains(c) && p(c));
    }
}

} // verus!
