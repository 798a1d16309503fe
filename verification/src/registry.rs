//! The ordered registry of rendered widgets, one per tracked workspace key.

use vstd::prelude::*;

verus! {

/// One tracked workspace: its key and the widget rendered for it.
pub struct Entry {
    pub key: usize,
    pub widget: String,
}

/// Whether the keys of `s` strictly ascend, so that no key occurs twice.
pub open spec fn ascending(s: Seq<(usize, Seq<char>)>) -> bool {
    forall|i: int, j: int| 0 <= i < j < s.len() ==> (#[trigger] s[i]).0 < (#[trigger] s[j]).0
}

/// Whether some entry of `s` has the key `k`.
pub open spec fn has_key(s: Seq<(usize, Seq<char>)>, k: usize) -> bool {
    exists|i: int| 0 <= i < s.len() && (#[trigger] s[i]).0 == k
}

/// The mapping from key to widget that the entries of `s` stand for.
pub open spec fn entries_map(s: Seq<(usize, Seq<char>)>) -> Map<usize, Seq<char>> {
    Map::new(
        |k: usize| has_key(s, k),
        |k: usize| s[choose|i: int| 0 <= i < s.len() && (#[trigger] s[i]).0 == k].1,
    )
}

/// The widgets of `s` in the order of the entries.
pub open spec fn widgets_of(s: Seq<(usize, Seq<char>)>) -> Seq<Seq<char>> {
    Seq::new(s.len(), |i: int| s[i].1)
}

/// In an ascending sequence every entry is found under its key.
pub proof fn lemma_entries_map(s: Seq<(usize, Seq<char>)>)
    requires
        ascending(s),
    ensures
        forall|i: int|
            0 <= i < s.len() ==> entries_map(s).contains_key((#[trigger] s[i]).0) && entries_map(
                s,
            )[s[i].0] == s[i].1,
{
    assert forall|i: int| 0 <= i < s.len() implies entries_map(s).contains_key(
        (#[trigger] s[i]).0,
    ) && entries_map(s)[s[i].0] == s[i].1 by {
        let k = s[i].0;
        assert(has_key(s, k));
        let c = choose|c: int| 0 <= c < s.len() && (#[trigger] s[c]).0 == k;
        assert(c == i) by {
            if c < i {
                assert(s[c].0 < s[i].0);
            } else if i < c {
                assert(s[i].0 < s[c].0);
            }
        }
    }
}

/// Two ascending sequences that stand for the same mapping are equal.
pub proof fn lemma_ascending_unique(a: Seq<(usize, Seq<char>)>, b: Seq<(usize, Seq<char>)>)
    requires
        ascending(a),
        ascending(b),
        entries_map(a) == entries_map(b),
    ensures
        a == b,
    decreases a.len(),
{
    lemma_entries_map(a);
    lemma_entries_map(b);
    if a.len() == 0 {
        if b.len() > 0 {
            assert(entries_map(b).contains_key(b[0].0));
            assert(has_key(a, b[0].0));
        }
        assert(a =~= b);
    } else {
        let la = a.last();
        assert(entries_map(a).contains_key(la.0));
        assert(has_key(b, la.0));
        let jb = choose|j: int| 0 <= j < b.len() && (#[trigger] b[j]).0 == la.0;
        let lb = b.last();
        assert(entries_map(b).contains_key(lb.0));
        assert(has_key(a, lb.0));
        let ja = choose|j: int| 0 <= j < a.len() && (#[trigger] a[j]).0 == lb.0;
        assert(a[ja].0 <= la.0);
        assert(b[jb].0 <= lb.0);
        assert(la.0 == lb.0);
        assert(la.1 == entries_map(a)[la.0]);
        assert(lb.1 == entries_map(b)[lb.0]);
        let a0 = a.drop_last();
        let b0 = b.drop_last();
        lemma_entries_map(a0);
        lemma_entries_map(b0);
        assert forall|k: usize| has_key(a0, k) <==> has_key(b0, k) by {
            if has_key(a0, k) {
                let i = choose|i: int| 0 <= i < a0.len() && (#[trigger] a0[i]).0 == k;
                assert(a[i].0 == k);
                assert(a[i].0 < la.0);
                assert(entries_map(b).contains_key(k));
                let j = choose|j: int| 0 <= j < b.len() && (#[trigger] b[j]).0 == k;
                assert(b0[j].0 == k);
            }
            if has_key(b0, k) {
                let i = choose|i: int| 0 <= i < b0.len() && (#[trigger] b0[i]).0 == k;
                assert(b[i].0 == k);
                assert(b[i].0 < lb.0);
                assert(entries_map(a).contains_key(k));
                let j = choose|j: int| 0 <= j < a.len() && (#[trigger] a[j]).0 == k;
                assert(a0[j].0 == k);
            }
        }
        assert forall|k: usize| has_key(a0, k) implies entries_map(a0)[k] == entries_map(b0)[k] by {
            let i = choose|i: int| 0 <= i < a0.len() && (#[trigger] a0[i]).0 == k;
            let j = choose|j: int| 0 <= j < b0.len() && (#[trigger] b0[j]).0 == k;
            assert(a[i] == a0[i]);
            assert(b[j] == b0[j]);
            assert(entries_map(a)[a[i].0] == a[i].1);
            assert(entries_map(b)[b[j].0] == b[j].1);
        }
        assert(entries_map(a0) =~= entries_map(b0));
        lemma_ascending_unique(a0, b0);
        assert(a =~= a0.push(la));
        assert(b =~= b0.push(lb));
    }
}

/// Replacing the widget at the position of `key` keeps the order and
/// rewrites the mapping at `key` alone.
pub proof fn lemma_update_entry(before: Seq<(usize, Seq<char>)>, p: int, key: usize, w: Seq<char>)
    requires
        ascending(before),
        0 <= p < before.len(),
        before[p].0 == key,
    ensures
        ascending(before.update(p, (key, w))),
        entries_map(before.update(p, (key, w))) == entries_map(before).insert(key, w),
{
    let after = before.update(p, (key, w));
        assert(ascending(after)) by {
            assert forall|i: int, j: int| 0 <= i < j < after.len() implies (
            #[trigger] after[i]).0 < (#[trigger] after[j]).0 by {
                assert(before[i].0 < before[j].0);
            }
        }
        lemma_entries_map(before);
        lemma_entries_map(after);
        assert forall|k: usize| has_key(after, k) <==> (k == key || has_key(before, k)) by {
            if has_key(after, k) {
                let i = choose|i: int| 0 <= i < after.len() && (#[trigger] after[i]).0 == k;
                assert(before[i].0 == k);
            }
            if has_key(before, k) {
                let i = choose|i: int|
                    0 <= i < before.len() && (#[trigger] before[i]).0 == k;
                assert(after[i].0 == k);
            }
            if k == key {
                assert(after[p].0 == k);
            }
        }
        assert forall|k: usize| has_key(after, k) implies entries_map(after)[k]
            == entries_map(before).insert(key, w)[k] by {
            let i = choose|i: int| 0 <= i < after.len() && (#[trigger] after[i]).0 == k;
            assert(entries_map(after)[after[i].0] == after[i].1);
            if i != p {
                assert(entries_map(before)[before[i].0] == before[i].1);
                assert(before[i].0 != before[p].0) by {
                    if i < p {
                        assert(before[i].0 < before[p].0);
                    } else {
                        assert(before[p].0 < before[i].0);
                    }
                }
            }
        }
        assert(entries_map(after) =~= entries_map(before).insert(key, w));
}

/// Inserting a new key between the smaller and the larger keys keeps the
/// order and adds `key` to the mapping.
pub proof fn lemma_insert_entry(before: Seq<(usize, Seq<char>)>, p: int, key: usize, w: Seq<char>)
    requires
        ascending(before),
        0 <= p <= before.len(),
        forall|j: int| 0 <= j < p ==> (#[trigger] before[j]).0 < key,
        p < before.len() ==> before[p].0 > key,
    ensures
        ascending(before.insert(p, (key, w))),
        entries_map(before.insert(p, (key, w))) == entries_map(before).insert(key, w),
{
    let after = before.insert(p, (key, w));
        assert(ascending(after)) by {
            assert forall|i: int, j: int| 0 <= i < j < after.len() implies (
            #[trigger] after[i]).0 < (#[trigger] after[j]).0 by {
                let i0 = if i < p { i } else { i - 1 };
                let j0 = if j < p { j } else { j - 1 };
                if i != p && j != p {
                    assert(before[i0].0 < before[j0].0);
                } else if i == p {
                    if p < j0 {
                        assert(before[p].0 < before[j0].0);
                    }
                    assert(before[j0].0 >= key);
                    assert(before[j0].0 != key || j0 == p);
                } else {
                    assert(before[i0].0 < key);
                }
            }
        }
        lemma_entries_map(before);
        lemma_entries_map(after);
        assert forall|k: usize| has_key(after, k) <==> (k == key || has_key(before, k)) by {
            if has_key(after, k) {
                let i = choose|i: int| 0 <= i < after.len() && (#[trigger] after[i]).0 == k;
                if i != p {
                    let i0 = if i < p { i } else { i - 1 };
                    assert(before[i0].0 == k);
                }
            }
            if has_key(before, k) {
                let i = choose|i: int|
                    0 <= i < before.len() && (#[trigger] before[i]).0 == k;
                let i1 = if i < p { i } else { i + 1 };
                assert(after[i1].0 == k);
            }
            if k == key {
                assert(after[p].0 == k);
            }
        }
        assert forall|k: usize| has_key(after, k) implies entries_map(after)[k]
            == entries_map(before).insert(key, w)[k] by {
            let i = choose|i: int| 0 <= i < after.len() && (#[trigger] after[i]).0 == k;
            assert(entries_map(after)[after[i].0] == after[i].1);
            if i != p {
                let i0 = if i < p { i } else { i - 1 };
                assert(before[i0] == after[i]);
                assert(entries_map(before)[before[i0].0] == before[i0].1);
                assert(after[i].0 != after[p].0) by {
                    if i < p {
                        assert(after[i].0 < after[p].0);
                    } else {
                        assert(after[p].0 < after[i].0);
                    }
                }
            }
        }
        assert(entries_map(after) =~= entries_map(before).insert(key, w));
}

/// The tracked workspaces in ascending order of their keys.
pub struct Registry {
    entries: Vec<Entry>,
}

impl Registry {
    /// The entries as pairs of key and widget, in the order in which they
    /// are rendered.
    pub closed spec fn view(&self) -> Seq<(usize, Seq<char>)> {
        Seq::new(self.entries@.len(), |i: int| (self.entries@[i].key, self.entries@[i].widget@))
    }

    /// The keys ascend strictly: each key occurs once and rendering goes by
    /// ascending key.
    pub open spec fn wf(&self) -> bool {
        ascending(self@)
    }

    /// The registry as a mapping from key to widget.
    pub open spec fn as_map(&self) -> Map<usize, Seq<char>> {
        entries_map(self@)
    }

    /// A registry that tracks nothing.
    pub fn new() -> (r: Registry)
        ensures
            r.wf(),
            r@ == Seq::<(usize, Seq<char>)>::empty(),
            r.as_map() == Map::<usize, Seq<char>>::empty(),
    {
        let r = Registry { entries: Vec::new() };
        assert(r@ =~= Seq::<(usize, Seq<char>)>::empty());
        assert(r.as_map() =~= Map::<usize, Seq<char>>::empty());
        r
    }

    /// The number of tracked keys.
    pub fn len(&self) -> (n: usize)
        ensures
            n == self@.len(),
    {
        self.entries.len()
    }

    /// The position of the first entry whose key is not below `key`.
    fn position(&self, key: usize) -> (p: usize)
        ensures
            p <= self@.len(),
            forall|j: int| 0 <= j < p ==> (#[trigger] self@[j]).0 < key,
            p < self@.len() ==> self@[p as int].0 >= key,
    {
        let mut p: usize = 0;
        while p < self.entries.len() && self.entries[p].key < key
            invariant
                p <= self@.len(),
                self@.len() == self.entries@.len(),
                forall|j: int| 0 <= j < p ==> (#[trigger] self@[j]).0 < key,
            decreases self.entries@.len() - p,
        {
            p += 1;
        }
        p
    }

    /// Whether `key` is tracked.
    pub fn contains_key(&self, key: usize) -> (b: bool)
        requires
            self.wf(),
        ensures
            b == self.as_map().contains_key(key),
    {
        let p = self.position(key);
        let b = p < self.entries.len() && self.entries[p].key == key;
        proof {
            if b {
                assert(self@[p as int].0 == key);
            } else if has_key(self@, key) {
                let i = choose|i: int| 0 <= i < self@.len() && (#[trigger] self@[i]).0 == key;
                if i > p {
                    assert(self@[p as int].0 < self@[i].0);
                }
            }
        }
        b
    }

    /// Tracks `key` with `widget`, in place of what was rendered for it before.
    pub fn upsert(&mut self, key: usize, widget: String)
        requires
            old(self).wf(),
        ensures
            final(self).wf(),
            final(self).as_map() == old(self).as_map().insert(key, widget@),
    {
        let p = self.position(key);
        let ghost before = self@;
        let ghost w = widget@;
        if p < self.entries.len() && self.entries[p].key == key {
            self.entries[p] = Entry { key, widget };
            proof {
                assert(self@ =~= before.update(p as int, (key, w)));
                lemma_update_entry(before, p as int, key, w);
            }
        } else {
            self.entries.insert(p, Entry { key, widget });
            proof {
                assert(self@ =~= before.insert(p as int, (key, w)));
                lemma_insert_entry(before, p as int, key, w);
            }
        }
    }

    /// Stops tracking `key`, and says whether it was tracked.
    pub fn remove(&mut self, key: usize) -> (was_present: bool)
        requires
            old(self).wf(),
        ensures
            final(self).wf(),
            was_present == old(self).as_map().contains_key(key),
            final(self).as_map() == old(self).as_map().remove(key),
    {
        let p = self.position(key);
        let ghost before = self@;
        if p < self.entries.len() && self.entries[p].key == key {
            let _ = self.entries.remove(p);
            proof {
                let after = self@;
                assert(after =~= before.remove(p as int));
                assert(before[p as int].0 == key);
                assert(ascending(after)) by {
                    assert forall|i: int, j: int| 0 <= i < j < after.len() implies (
                    #[trigger] after[i]).0 < (#[trigger] after[j]).0 by {
                        let i1 = if i < p { i } else { i + 1 };
                        let j1 = if j < p { j } else { j + 1 };
                        assert(before[i1].0 < before[j1].0);
                    }
                }
                lemma_entries_map(before);
                lemma_entries_map(after);
                assert forall|k: usize| has_key(after, k) <==> (k != key && has_key(before, k)) by {
                    if has_key(after, k) {
                        let i = choose|i: int| 0 <= i < after.len() && (#[trigger] after[i]).0 == k;
                        let i1 = if i < p { i } else { i + 1 };
                        assert(before[i1].0 == k);
                        if i1 < p {
                            assert(before[i1].0 < before[p as int].0);
                        } else {
                            assert(before[p as int].0 < before[i1].0);
                        }
                    }
                    if k != key && has_key(before, k) {
                        let i = choose|i: int|
                            0 <= i < before.len() && (#[trigger] before[i]).0 == k;
                        let i0 = if i < p { i } else { i - 1 };
                        assert(after[i0].0 == k);
                    }
                }
                assert forall|k: usize| has_key(after, k) implies entries_map(after)[k]
                    == entries_map(before)[k] by {
                    let i = choose|i: int| 0 <= i < after.len() && (#[trigger] after[i]).0 == k;
                    let i1 = if i < p { i } else { i + 1 };
                    assert(before[i1] == after[i]);
                    assert(entries_map(after)[after[i].0] == after[i].1);
                    assert(entries_map(before)[before[i1].0] == before[i1].1);
                }
                assert(entries_map(after) =~= entries_map(before).remove(key));
            }
            true
        } else {
            proof {
                if has_key(before, key) {
                    let i = choose|i: int| 0 <= i < before.len() && (#[trigger] before[i]).0 == key;
                    if i > p {
                        assert(before[p as int].0 < before[i].0);
                    }
                }
                assert(entries_map(before) =~= entries_map(before).remove(key));
            }
            false
        }
    }

    /// The tracked keys in ascending order.
    pub fn keys(&self) -> (ks: Vec<usize>)
        ensures
            ks@.len() == self@.len(),
            forall|i: int| 0 <= i < ks@.len() ==> ks@[i] == (#[trigger] self@[i]).0,
    {
        let mut ks: Vec<usize> = Vec::new();
        let mut i: usize = 0;
        while i < self.entries.len()
            invariant
                i <= self.entries@.len(),
                self@.len() == self.entries@.len(),
                ks@.len() == i,
                forall|j: int| 0 <= j < i ==> ks@[j] == (#[trigger] self@[j]).0,
            decreases self.entries@.len() - i,
        {
            ks.push(self.entries[i].key);
            i += 1;
        }
        ks
    }

    /// The widgets in ascending order of their keys.
    pub fn render_all(&self) -> (ws: Vec<String>)
        ensures
            ws@.len() == self@.len(),
            forall|i: int| 0 <= i < ws@.len() ==> (#[trigger] ws@[i])@ == self@[i].1,
    {
        let mut ws: Vec<String> = Vec::new();
        let mut i: usize = 0;
        while i < self.entries.len()
            invariant
                i <= self.entries@.len(),
                self@.len() == self.entries@.len(),
                ws@.len() == i,
                forall|j: int| 0 <= j < i ==> (#[trigger] ws@[j])@ == self@[j].1,
            decreases self.entries@.len() - i,
        {
            ws.push(self.entries[i].widget.clone());
            i += 1;
        }
        ws
    }
}

} // verus!
