//! The two stores of the sidebar: statuses keyed by session name, kept in
//! key order, and the set of sessions that ask for attention.
use vstd::prelude::*;
use crate::model::{SessionStatus, StatusView};
use crate::strings::{seq_less, str_less, lemma_seq_less_irreflexive, lemma_seq_less_total,
    lemma_seq_less_transitive};

verus! {

/// Entries of a status store, as values.
pub type Entries = Seq<(Seq<char>, StatusView)>;

/// Keys strictly increase along the entries: each key occurs once, and the
/// entries come in key order.
pub open spec fn keys_sorted(l: Entries) -> bool {
    forall|i: int, j: int| 0 <= i < j < l.len() ==> seq_less(l[i].0, l[j].0)
}

/// The status stored under `k`, if any (the first entry with that key).
pub open spec fn entry_get(l: Entries, k: Seq<char>) -> Option<StatusView>
    decreases l.len(),
{
    if l.len() == 0 {
        None
    } else if l[0].0 == k {
        Some(l[0].1)
    } else {
        entry_get(l.drop_first(), k)
    }
}

/// `l` with `v` stored under `k`: an entry of that key is replaced, else a
/// new one is put at its place in key order.
pub open spec fn entry_insert(l: Entries, k: Seq<char>, v: StatusView) -> Entries
    decreases l.len(),
{
    if l.len() == 0 {
        seq![(k, v)]
    } else if l[0].0 == k {
        seq![(k, v)] + l.drop_first()
    } else if seq_less(k, l[0].0) {
        seq![(k, v)] + l
    } else {
        seq![l[0]] + entry_insert(l.drop_first(), k, v)
    }
}

/// Where `entry_insert` puts the new entry, for keys in order: after the
/// `i` entries whose keys sort before `k`.
pub proof fn lemma_entry_insert_at(l: Entries, k: Seq<char>, v: StatusView, i: int)
    requires
        keys_sorted(l),
        0 <= i <= l.len(),
        forall|j: int| 0 <= j < i ==> seq_less(#[trigger] l[j].0, k),
        i < l.len() ==> !seq_less(l[i].0, k),
    ensures
        i < l.len() && l[i].0 == k ==> entry_insert(l, k, v) == l.take(i) + seq![(k, v)] + l.skip(i + 1),
        !(i < l.len() && l[i].0 == k) ==> entry_insert(l, k, v) == l.take(i) + seq![(k, v)] + l.skip(i),
    decreases i,
{
    if i == 0 {
        if l.len() > 0 {
            lemma_seq_less_total(l[0].0, k);
            assert(l.skip(1) =~= l.drop_first());
        }
        assert(l.skip(0) =~= l);
        assert(l.take(0) =~= Seq::<(Seq<char>, StatusView)>::empty());
    } else {
        lemma_seq_less_irreflexive(k);
        lemma_seq_less_total(l[0].0, k);
        let t = l.drop_first();
        assert forall|a: int, b: int| 0 <= a < b < t.len() implies seq_less(t[a].0, t[b].0) by {
            assert(t[a] == l[a + 1] && t[b] == l[b + 1]);
        }
        assert forall|j: int| 0 <= j < i - 1 implies seq_less(#[trigger] t[j].0, k) by {
            assert(t[j] == l[j + 1]);
        }
        lemma_entry_insert_at(t, k, v, i - 1);
        assert(l.take(i) =~= seq![l[0]] + t.take(i - 1));
        if i < l.len() {
            assert(t.skip(i) =~= l.skip(i + 1));
        }
        assert(t.skip(i - 1) =~= l.skip(i));
    }
}

/// Storing keeps the keys in order.
pub proof fn lemma_entry_insert_sorted(l: Entries, k: Seq<char>, v: StatusView)
    requires
        keys_sorted(l),
    ensures
        keys_sorted(entry_insert(l, k, v)),
    decreases l.len(),
{
    if l.len() > 0 && l[0].0 != k && !seq_less(k, l[0].0) {
        let t = l.drop_first();
        assert forall|a: int, b: int| 0 <= a < b < t.len() implies seq_less(t[a].0, t[b].0) by {
            assert(t[a] == l[a + 1] && t[b] == l[b + 1]);
        }
        lemma_entry_insert_sorted(t, k, v);
        lemma_seq_less_total(l[0].0, k);
        lemma_entry_insert_keys(t, k, v);
        let r = entry_insert(l, k, v);
        let rt = entry_insert(t, k, v);
        assert forall|a: int, b: int| 0 <= a < b < r.len() implies seq_less(r[a].0, r[b].0) by {
            assert(r =~= seq![l[0]] + rt);
            if a == 0 {
                assert(r[0] == l[0]);
                assert(r[b] == rt[b - 1]);
                assert(rt.contains(rt[b - 1]));
                if rt[b - 1].0 != k {
                    let m = choose|m: int| 0 <= m < t.len() && t[m].0 == rt[b - 1].0;
                    assert(t[m] == l[m + 1]);
                    assert(seq_less(l[0].0, l[m + 1].0));
                } else {
                    assert(seq_less(l[0].0, k));
                }
            } else {
                assert(r[a] == rt[a - 1] && r[b] == rt[b - 1]);
                assert(seq_less(rt[a - 1].0, rt[b - 1].0));
            }
        }
    } else if l.len() > 0 && l[0].0 == k {
        let r = entry_insert(l, k, v);
        assert forall|a: int, b: int| 0 <= a < b < r.len() implies seq_less(r[a].0, r[b].0) by {
            if a == 0 {
                assert(r[b] == l[b]);
            } else {
                assert(r[a] == l[a] && r[b] == l[b]);
            }
        }
    } else if l.len() > 0 {
        let r = entry_insert(l, k, v);
        assert forall|a: int, b: int| 0 <= a < b < r.len() implies seq_less(r[a].0, r[b].0) by {
            assert(r =~= seq![(k, v)] + l);
            if a == 0 {
                assert(r[0] == (k, v));
                assert(r[b] == l[b - 1]);
                if b > 1 {
                    assert(seq_less(l[0].0, l[b - 1].0));
                    lemma_seq_less_transitive(k, l[0].0, l[b - 1].0);
                }
            } else {
                assert(r[a] == l[a - 1] && r[b] == l[b - 1]);
            }
        }
    }
}

/// Every key after storing is `k` or a key from before.
pub proof fn lemma_entry_insert_keys(l: Entries, k: Seq<char>, v: StatusView)
    ensures
        forall|e: (Seq<char>, StatusView)| #[trigger] entry_insert(l, k, v).contains(e) ==> e.0 == k
            || exists|m: int| 0 <= m < l.len() && l[m].0 == e.0,
    decreases l.len(),
{
    let r = entry_insert(l, k, v);
    if l.len() > 0 && l[0].0 != k && !seq_less(k, l[0].0) {
        let t = l.drop_first();
        lemma_entry_insert_keys(t, k, v);
        assert forall|e: (Seq<char>, StatusView)| #[trigger] r.contains(e) implies e.0 == k
            || exists|m: int| 0 <= m < l.len() && l[m].0 == e.0 by {
            let n = choose|n: int| 0 <= n < r.len() && r[n] == e;
            if n > 0 {
                assert(entry_insert(t, k, v)[n - 1] == e);
                assert(entry_insert(t, k, v).contains(e));
                if e.0 != k {
                    let m = choose|m: int| 0 <= m < t.len() && t[m].0 == e.0;
                    assert(l[m + 1] == t[m]);
                }
            } else {
                assert(l[0].0 == e.0);
            }
        }
    } else if l.len() > 0 && l[0].0 == k {
        assert forall|e: (Seq<char>, StatusView)| #[trigger] r.contains(e) implies e.0 == k
            || exists|m: int| 0 <= m < l.len() && l[m].0 == e.0 by {
            let n = choose|n: int| 0 <= n < r.len() && r[n] == e;
            if n > 0 {
                assert(l[n] == e);
            }
        }
    } else if l.len() > 0 {
        assert forall|e: (Seq<char>, StatusView)| #[trigger] r.contains(e) implies e.0 == k
            || exists|m: int| 0 <= m < l.len() && l[m].0 == e.0 by {
            let n = choose|n: int| 0 <= n < r.len() && r[n] == e;
            if n > 0 {
                assert(l[n - 1] == e);
            }
        }
    } else {
        assert forall|e: (Seq<char>, StatusView)| #[trigger] r.contains(e) implies e.0 == k by {
            let n = choose|n: int| 0 <= n < r.len() && r[n] == e;
        }
    }
}

/// Reading `k` after storing under it gives what was stored; other keys
/// read as before.
pub proof fn lemma_entry_get_insert(l: Entries, k: Seq<char>, v: StatusView, k2: Seq<char>)
    ensures
        entry_get(entry_insert(l, k, v), k2) == if k2 == k {
            Some(v)
        } else {
            entry_get(l, k2)
        },
    decreases l.len(),
{
    if l.len() > 0 {
        let r = entry_insert(l, k, v);
        if l[0].0 == k {
            assert(r.drop_first() =~= l.drop_first());
        } else if seq_less(k, l[0].0) {
            assert(r.drop_first() =~= l);
        } else {
            lemma_entry_get_insert(l.drop_first(), k, v, k2);
            assert(r.drop_first() =~= entry_insert(l.drop_first(), k, v));
        }
    } else {
        let r = entry_insert(l, k, v);
        assert(r.drop_first() =~= l);
    }
}

/// Statuses keyed by session name, in key order, as a `BTreeMap` keeps them.
pub struct StatusCache {
    entries: Vec<(String, SessionStatus)>,
}

impl View for StatusCache {
    type V = Entries;

    closed spec fn view(&self) -> Entries {
        self.entries.deep_view()
    }
}

impl StatusCache {
    /// The store keeps its keys in order.
    pub open spec fn wf(&self) -> bool {
        keys_sorted(self@)
    }

    /// Whether the keys are in order (see `wf`).
    pub fn keys_in_order(&self) -> (r: bool)
        ensures
            r == self.wf(),
    {
        let n = self.entries.len();
        if n == 0 {
            return true;
        }
        let mut i: usize = 0;
        while i + 1 < n
            invariant
                n == self@.len(),
                n > 0,
                i < n,
                forall|a: int, b: int| 0 <= a < b <= i ==> seq_less(self@[a].0, self@[b].0),
            decreases n - i,
        {
            proof {
                assert(self@[i as int].0 == self.entries@[i as int].0@);
                assert(self@[i + 1].0 == self.entries@[i + 1].0@);
            }
            if !str_less(self.entries[i].0.as_str(), self.entries[i + 1].0.as_str()) {
                return false;
            }
            proof {
                assert forall|a: int, b: int| 0 <= a < b <= i + 1 implies seq_less(self@[a].0, self@[b].0) by {
                    if b == i + 1 && a < i {
                        lemma_seq_less_transitive(self@[a].0, self@[i as int].0, self@[b].0);
                    }
                }
            }
            i = i + 1;
        }
        true
    }

    /// An empty store.
    pub fn new() -> (c: StatusCache)
        ensures
            c.wf(),
            c@ == Seq::<(Seq<char>, StatusView)>::empty(),
    {
        let c = StatusCache { entries: Vec::new() };
        assert(c@ =~= Seq::<(Seq<char>, StatusView)>::empty());
        c
    }

    /// Removes every entry.
    pub fn clear(&mut self)
        ensures
            final(self).wf(),
            final(self)@ == Seq::<(Seq<char>, StatusView)>::empty(),
    {
        self.entries.clear();
        assert(self@ =~= Seq::<(Seq<char>, StatusView)>::empty());
    }

    /// The number of entries.
    pub fn len(&self) -> (n: usize)
        ensures
            n == self@.len(),
    {
        self.entries.len()
    }

    /// The key of the entry at `i`.
    pub fn key_at(&self, i: usize) -> (k: &String)
        requires
            i < self@.len(),
        ensures
            k@ == self@[i as int].0,
    {
        &self.entries[i].0
    }

    /// The status of the entry at `i`.
    pub fn status_at(&self, i: usize) -> (s: &SessionStatus)
        requires
            i < self@.len(),
        ensures
            s@ == self@[i as int].1,
    {
        &self.entries[i].1
    }

    /// A copy of the status stored under `k`.
    pub fn get(&self, k: &str) -> (r: Option<SessionStatus>)
        ensures
            r.deep_view() == entry_get(self@, k@),
    {
        let n = self.entries.len();
        let mut i: usize = 0;
        proof {
            assert(self@.skip(0) =~= self@);
        }
        while i < n
            invariant
                n == self@.len(),
                i <= n,
                entry_get(self@, k@) == entry_get(self@.skip(i as int), k@),
            decreases n - i,
        {
            proof {
                assert(self@.skip(i as int)[0] == self@[i as int]);
                assert(self@.skip(i as int).drop_first() =~= self@.skip(i + 1));
                assert(self@[i as int].0 == self.entries[i as int].0@);
            }
            if self.entries[i].0.as_str().to_owned() == k.to_owned() {
                return Some(self.entries[i].1.cloned());
            }
            i = i + 1;
        }
        None
    }

    /// Whether a status is stored under `k`.
    pub fn contains_key(&self, k: &str) -> (r: bool)
        ensures
            r == (entry_get(self@, k@) is Some),
    {
        self.get(k).is_some()
    }

    /// Stores `v` under `k`, replacing what was stored there.
    pub fn insert(&mut self, k: String, v: SessionStatus)
        requires
            old(self).wf(),
        ensures
            final(self).wf(),
            final(self)@ == entry_insert(old(self)@, k@, v@),
    {
        let n = self.entries.len();
        let mut i: usize = 0;
        while i < n && str_less(self.entries[i].0.as_str(), k.as_str())
            invariant
                n == self@.len(),
                i <= n,
                forall|j: int| 0 <= j < i ==> seq_less(#[trigger] self@[j].0, k@),
            decreases n - i,
        {
            i = i + 1;
        }
        proof {
            lemma_entry_insert_at(self@, k@, v@, i as int);
            lemma_entry_insert_sorted(self@, k@, v@);
        }
        let ghost k_view = k@;
        let ghost v_view = v@;
        let ghost before = self@;
        if i < n && self.entries[i].0 == k {
            self.entries.set(i, (k, v));
            assert(self@ =~= before.take(i as int) + seq![(k_view, v_view)] + before.skip(i + 1));
        } else {
            self.entries.insert(i, (k, v));
            assert(self@ =~= before.take(i as int) + seq![(k_view, v_view)] + before.skip(i as int));
        }
    }
}

/// One of the first `n` strings of `s` reads `x`.
pub open spec fn has_name(s: Seq<String>, n: int, x: Seq<char>) -> bool {
    exists|j: int| 0 <= j < n && #[trigger] s[j]@ == x
}

/// A set of session names.
pub struct NameSet {
    names: Vec<String>,
}

impl View for NameSet {
    type V = Set<Seq<char>>;

    closed spec fn view(&self) -> Set<Seq<char>> {
        Set::new(|x: Seq<char>| has_name(self.names@, self.names@.len() as int, x))
    }
}

impl NameSet {
    /// An empty set.
    pub fn new() -> (s: NameSet)
        ensures
            s@ == Set::<Seq<char>>::empty(),
    {
        let s = NameSet { names: Vec::new() };
        assert(s@ =~= Set::<Seq<char>>::empty());
        s
    }

    /// Whether `name` is in the set.
    pub fn contains(&self, name: &str) -> (r: bool)
        ensures
            r == self@.contains(name@),
    {
        let n = self.names.len();
        let mut i: usize = 0;
        while i < n
            invariant
                n == self.names@.len(),
                i <= n,
                forall|j: int| 0 <= j < i ==> self.names@[j]@ != name@,
            decreases n - i,
        {
            if self.names[i].as_str().to_owned() == name.to_owned() {
                assert(self@.contains(name@));
                return true;
            }
            i = i + 1;
        }
        false
    }

    /// Adds `name`.
    pub fn insert(&mut self, name: String)
        ensures
            final(self)@ == old(self)@.insert(name@),
    {
        if !self.contains(name.as_str()) {
            let ghost before = self.names@;
            let ghost nv = name@;
            self.names.push(name);
            assert(self@ =~= old(self)@.insert(nv)) by {
                assert(self.names@[before.len() as int]@ == nv);
                assert forall|x: Seq<char>| self@.contains(x) implies old(self)@.insert(nv).contains(x) by {
                    let i = choose|i: int| 0 <= i < self.names@.len() && self.names@[i]@ == x;
                    if i < before.len() {
                        assert(before[i] == self.names@[i]);
                    }
                }
                assert forall|x: Seq<char>| old(self)@.contains(x) implies self@.contains(x) by {
                    let i = choose|i: int| 0 <= i < before.len() && before[i]@ == x;
                    assert(self.names@[i] == before[i]);
                }
            }
        } else {
            assert(self@ =~= old(self)@.insert(name@));
        }
    }

    /// Removes `name`.
    pub fn remove(&mut self, name: &str)
        ensures
            final(self)@ == old(self)@.remove(name@),
    {
        let n = self.names.len();
        let mut kept: Vec<String> = Vec::new();
        let mut i: usize = 0;
        while i < n
            invariant
                n == self.names@.len(),
                self.names@ == old(self).names@,
                i <= n,
                forall|x: Seq<char>| #[trigger] has_name(kept@, kept@.len() as int, x) <==> (x != name@
                    && has_name(self.names@, i as int, x)),
            decreases n - i,
        {
            let ghost before = kept@;
            if self.names[i].as_str().to_owned() != name.to_owned() {
                kept.push(self.names[i].clone());
            }
            assert forall|x: Seq<char>| #[trigger] has_name(kept@, kept@.len() as int, x) <==> (x
                != name@ && has_name(self.names@, i + 1, x)) by {
                if has_name(kept@, kept@.len() as int, x) {
                    let j = choose|j: int| 0 <= j < kept@.len() && kept@[j]@ == x;
                    if j < before.len() {
                        assert(before[j] == kept@[j]);
                        assert(has_name(before, before.len() as int, x));
                    }
                }
                if x != name@ && has_name(self.names@, i + 1, x) {
                    let j = choose|j: int| 0 <= j < i + 1 && self.names@[j]@ == x;
                    if j < i {
                        assert(has_name(self.names@, i as int, x));
                        assert(has_name(before, before.len() as int, x));
                        let m = choose|m: int| 0 <= m < before.len() && before[m]@ == x;
                        assert(kept@[m] == before[m]);
                    } else {
                        assert(kept@[before.len() as int]@ == x);
                    }
                }
            }
            i = i + 1;
        }
        self.names = kept;
        assert(self@ =~= old(self)@.remove(name@));
    }
}

} // verus!
