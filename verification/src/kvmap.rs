//! Key-value records with byte-string keys.
//!
//! Every PSBT map field (partial signatures, hash preimages, taproot script
//! material, proprietary and unknown records) is a finite map from an opaque,
//! totally ordered composite key — its byte serialization — to a value. The
//! executable representation is an association list whose keys are pairwise
//! distinct; its mathematical model is the `Map` built from the entries, and
//! the entry order is part of the view so that every operation on a record is
//! deterministic.

use vstd::prelude::*;
use crate::bytes::bytes_eq;
use crate::bytes::clone_bytes;

verus! {

/// Whether some entry of `s` carries the key `k`.
pub open spec fn seq_has_key<V>(s: Seq<(Seq<u8>, V)>, k: Seq<u8>) -> bool {
    exists|i: int| 0 <= i < s.len() && s[i].0 == k
}

/// Whether the keys of `s` are pairwise distinct.
pub open spec fn keys_unique<V>(s: Seq<(Seq<u8>, V)>) -> bool {
    forall|i: int, j: int| 0 <= i < j < s.len() ==> s[i].0 != s[j].0
}

/// The finite map described by an entry sequence; a later entry for the same
/// key would win, but well-formed records have distinct keys.
pub open spec fn map_of<V>(s: Seq<(Seq<u8>, V)>) -> Map<Seq<u8>, V>
    decreases s.len(),
{
    if s.len() == 0 {
        Map::empty()
    } else {
        map_of(s.drop_last()).insert(s.last().0, s.last().1)
    }
}

/// Two maps are compatible when they agree on every shared key.
pub open spec fn maps_compatible<V>(m1: Map<Seq<u8>, V>, m2: Map<Seq<u8>, V>) -> bool {
    forall|k: Seq<u8>| #![auto] m1.contains_key(k) && m2.contains_key(k) ==> m1[k] == m2[k]
}

/// Two optional scalar fields are compatible when they do not carry two
/// different values.
pub open spec fn opt_compatible<T>(a: Option<T>, b: Option<T>) -> bool {
    a is Some && b is Some ==> a == b
}

/// The union of two optional scalar fields: the side that carries a value
/// wins; on two equal values either side serves.
pub open spec fn opt_merge<T>(a: Option<T>, b: Option<T>) -> Option<T> {
    if a is Some {
        a
    } else {
        b
    }
}

/// The union of two entry sequences: keeps all of `a`, then appends those
/// entries of `b` whose keys `a` does not carry, in their order in `b`.
pub open spec fn merge_seq<V>(a: Seq<(Seq<u8>, V)>, b: Seq<(Seq<u8>, V)>) -> Seq<(Seq<u8>, V)>
    decreases b.len(),
{
    if b.len() == 0 {
        a
    } else {
        let prev = merge_seq(a, b.drop_last());
        if seq_has_key(a, b.last().0) {
            prev
        } else {
            prev.push(b.last())
        }
    }
}

/// A key is in the map of `s` exactly when some entry of `s` carries it.
pub proof fn lemma_map_of_contains<V>(s: Seq<(Seq<u8>, V)>)
    ensures
        forall|k: Seq<u8>| #[trigger] map_of(s).contains_key(k) <==> seq_has_key(s, k),
    decreases s.len(),
{
    if s.len() == 0 {
        assert forall|k: Seq<u8>| #[trigger] map_of(s).contains_key(k) <==> seq_has_key(s, k) by {
            assert(map_of(s) == Map::<Seq<u8>, V>::empty());
            assert(!map_of(s).contains_key(k));
        }
    } else {
        lemma_map_of_contains(s.drop_last());
        assert forall|k: Seq<u8>| #[trigger] map_of(s).contains_key(k) <==> seq_has_key(s, k) by {
            assert(map_of(s) == map_of(s.drop_last()).insert(s.last().0, s.last().1));
            if map_of(s).contains_key(k) {
                if k == s.last().0 {
                    assert(s[s.len() - 1].0 == k);
                    assert(seq_has_key(s, k));
                } else {
                    assert(map_of(s.drop_last()).contains_key(k));
                    assert(seq_has_key(s.drop_last(), k));
                    let i = choose|i: int|
                        0 <= i < s.drop_last().len() && s.drop_last()[i].0 == k;
                    assert(s.drop_last()[i] == s[i]);
                    assert(s[i].0 == k);
                    assert(seq_has_key(s, k));
                }
            }
            if seq_has_key(s, k) {
                let i = choose|i: int| 0 <= i < s.len() && s[i].0 == k;
                if i < s.len() - 1 {
                    assert(s.drop_last()[i] == s[i]);
                    assert(s.drop_last()[i].0 == k);
                    assert(seq_has_key(s.drop_last(), k));
                    assert(map_of(s.drop_last()).contains_key(k));
                    assert(map_of(s).contains_key(k));
                } else {
                    assert(k == s.last().0);
                    assert(map_of(s).contains_key(k));
                }
            }
        }
    }
}

/// Dropping the last entry keeps the keys pairwise distinct.
pub proof fn lemma_keys_unique_drop_last<V>(s: Seq<(Seq<u8>, V)>)
    requires
        keys_unique(s),
        s.len() > 0,
    ensures
        keys_unique(s.drop_last()),
{
    assert forall|i: int, j: int|
        0 <= i < j < s.drop_last().len() implies s.drop_last()[i].0 != s.drop_last()[j].0 by {
        assert(s.drop_last()[i] == s[i]);
        assert(s.drop_last()[j] == s[j]);
    }
}

/// With distinct keys, each entry gives the value of its key in the map.
pub proof fn lemma_map_of_index<V>(s: Seq<(Seq<u8>, V)>, i: int)
    requires
        keys_unique(s),
        0 <= i < s.len(),
    ensures
        map_of(s).contains_key(s[i].0),
        map_of(s)[s[i].0] == s[i].1,
    decreases s.len(),
{
    if i == s.len() - 1 {
    } else {
        lemma_keys_unique_drop_last(s);
        assert(s.drop_last()[i] == s[i]);
        lemma_map_of_index(s.drop_last(), i);
        assert(s[i].0 != s.last().0);
    }
}

/// Appending an entry inserts its key into the map.
pub proof fn lemma_map_of_push<V>(s: Seq<(Seq<u8>, V)>, k: Seq<u8>, v: V)
    ensures
        map_of(s.push((k, v))) == map_of(s).insert(k, v),
{
    assert(s.push((k, v)).drop_last() =~= s);
    assert(s.push((k, v)).last() == (k, v));
}

/// Replacing the value at position `i` updates the map at that entry's key.
pub proof fn lemma_map_of_update<V>(s: Seq<(Seq<u8>, V)>, i: int, v: V)
    requires
        keys_unique(s),
        0 <= i < s.len(),
    ensures
        map_of(s.update(i, (s[i].0, v))) == map_of(s).insert(s[i].0, v),
    decreases s.len(),
{
    let t = s.update(i, (s[i].0, v));
    if i == s.len() - 1 {
        assert(t.drop_last() =~= s.drop_last());
        assert(t.last() == (s[i].0, v));
        assert(map_of(t) =~= map_of(s).insert(s[i].0, v));
    } else {
        lemma_keys_unique_drop_last(s);
        assert(s.drop_last()[i] == s[i]);
        lemma_map_of_update(s.drop_last(), i, v);
        assert(t.drop_last() =~= s.drop_last().update(i, (s[i].0, v)));
        assert(t.last() == s.last());
        assert(s[i].0 != s.last().0);
        assert(map_of(t) =~= map_of(s).insert(s[i].0, v));
    }
}

/// With distinct keys, the last entry's key is not among the earlier ones.
pub proof fn lemma_last_key_fresh<V>(s: Seq<(Seq<u8>, V)>)
    requires
        keys_unique(s),
        s.len() > 0,
    ensures
        !seq_has_key(s.drop_last(), s.last().0),
        !map_of(s.drop_last()).contains_key(s.last().0),
{
    lemma_map_of_contains(s.drop_last());
    if seq_has_key(s.drop_last(), s.last().0) {
        let i = choose|i: int|
            0 <= i < s.drop_last().len() && s.drop_last()[i].0 == s.last().0;
        assert(s[i] == s.drop_last()[i]);
        assert(s[i].0 != s[s.len() - 1].0);
        assert(false);
    }
}

/// The union of two well-formed, compatible records: distinct keys, and its
/// map is the union of the two maps.
pub proof fn lemma_merge_seq_map<V>(a: Seq<(Seq<u8>, V)>, b: Seq<(Seq<u8>, V)>)
    requires
        keys_unique(a),
        keys_unique(b),
        maps_compatible(map_of(a), map_of(b)),
    ensures
        keys_unique(merge_seq(a, b)),
        map_of(merge_seq(a, b)) == map_of(a).union_prefer_right(map_of(b)),
        forall|k: Seq<u8>| #[trigger] seq_has_key(merge_seq(a, b), k)
            <==> seq_has_key(a, k) || seq_has_key(b, k),
    decreases b.len(),
{
    lemma_map_of_contains(a);
    lemma_map_of_contains(b);
    lemma_map_of_contains(merge_seq(a, b));
    if b.len() == 0 {
        assert(map_of(merge_seq(a, b)) =~= map_of(a).union_prefer_right(map_of(b)));
        assert forall|k: Seq<u8>| #[trigger] seq_has_key(merge_seq(a, b), k)
            <==> seq_has_key(a, k) || seq_has_key(b, k) by {
            if seq_has_key(b, k) {
                assert(false);
            }
        }
    } else {
        let bp = b.drop_last();
        let lk = b.last().0;
        let lv = b.last().1;
        lemma_keys_unique_drop_last(b);
        lemma_map_of_contains(bp);
        lemma_last_key_fresh(b);
        // Compatibility carries down to the shorter suffix of `b`.
        assert forall|k: Seq<u8>| #![auto]
            map_of(a).contains_key(k) && map_of(bp).contains_key(k)
            implies map_of(a)[k] == map_of(bp)[k] by {
            assert(k != lk);
            assert(map_of(b)[k] == map_of(bp)[k]);
            assert(map_of(b).contains_key(k));
        }
        lemma_merge_seq_map(a, bp);
        let prev = merge_seq(a, bp);
        lemma_map_of_contains(prev);
        // Entries of `b` index into its map.
        lemma_map_of_index(b, b.len() - 1);
        if seq_has_key(a, lk) {
            assert(merge_seq(a, b) == prev);
            assert(map_of(a).contains_key(lk));
            assert(map_of(b).contains_key(lk));
            assert(map_of(a)[lk] == lv);
            assert(map_of(prev) =~= map_of(a).union_prefer_right(map_of(b)));
            assert forall|k: Seq<u8>| #[trigger] seq_has_key(merge_seq(a, b), k)
                <==> seq_has_key(a, k) || seq_has_key(b, k) by {
                if seq_has_key(b, k) {
                    let i = choose|i: int| 0 <= i < b.len() && b[i].0 == k;
                    if i < b.len() - 1 {
                        assert(bp[i].0 == k);
                        assert(seq_has_key(bp, k));
                    }
                }
                if seq_has_key(bp, k) {
                    let i = choose|i: int| 0 <= i < bp.len() && bp[i].0 == k;
                    assert(b[i].0 == k);
                    assert(seq_has_key(b, k));
                }
            }
        } else {
            assert(merge_seq(a, b) == prev.push(b.last()));
            lemma_map_of_push(prev, lk, lv);
            // The appended key is fresh in `prev`.
            assert(!map_of(a).contains_key(lk));
            assert(!map_of(bp).contains_key(lk));
            assert(!seq_has_key(prev, lk));
            assert forall|i: int, j: int|
                0 <= i < j < prev.push(b.last()).len()
                implies prev.push(b.last())[i].0 != prev.push(b.last())[j].0 by {
                if j < prev.len() {
                    assert(prev[i].0 != prev[j].0);
                } else {
                    assert(prev.push(b.last())[j] == b.last());
                    if prev[i].0 == lk {
                        assert(seq_has_key(prev, lk));
                    }
                }
            }
            assert(map_of(prev.push(b.last()))
                =~= map_of(a).union_prefer_right(map_of(b)));
            lemma_map_of_contains(prev.push(b.last()));
            assert forall|k: Seq<u8>| #[trigger] seq_has_key(merge_seq(a, b), k)
                <==> seq_has_key(a, k) || seq_has_key(b, k) by {
                assert(seq_has_key(merge_seq(a, b), k)
                    <==> map_of(merge_seq(a, b)).contains_key(k));
                if seq_has_key(b, k) {
                    let i = choose|i: int| 0 <= i < b.len() && b[i].0 == k;
                    lemma_map_of_index(b, i);
                }
                if map_of(b).contains_key(k) {
                    assert(seq_has_key(b, k));
                }
            }
        }
    }
}

/// A record: a finite map from opaque byte-string keys to byte-string values.
#[derive(Debug)]
pub struct ByteMap {
    entries: Vec<(Vec<u8>, Vec<u8>)>,
}

impl View for ByteMap {
    type V = Seq<(Seq<u8>, Seq<u8>)>;

    closed spec fn view(&self) -> Seq<(Seq<u8>, Seq<u8>)> {
        Seq::new(self.entries@.len(), |i: int| (self.entries@[i].0@, self.entries@[i].1@))
    }
}

impl ByteMap {
    /// Well-formed: the keys are pairwise distinct.
    pub open spec fn wf(&self) -> bool {
        keys_unique(self@)
    }

    /// The finite map this record describes.
    pub open spec fn as_map(&self) -> Map<Seq<u8>, Seq<u8>> {
        map_of(self@)
    }

    /// The empty record.
    pub fn new() -> (m: ByteMap)
        ensures
            m@ == Seq::<(Seq<u8>, Seq<u8>)>::empty(),
            m.wf(),
    {
        let m = ByteMap { entries: Vec::new() };
        proof {
            assert(m@ =~= Seq::<(Seq<u8>, Seq<u8>)>::empty());
        }
        m
    }

    /// The number of entries.
    pub fn len(&self) -> (n: usize)
        ensures
            n == self@.len(),
    {
        self.entries.len()
    }

    /// Whether the record holds no entry.
    pub fn is_empty(&self) -> (b: bool)
        ensures
            b == (self@.len() == 0),
    {
        self.entries.len() == 0
    }

    /// The key of the entry at position `i`.
    pub fn key_at(&self, i: usize) -> (k: &Vec<u8>)
        requires
            i < self@.len(),
        ensures
            k@ == self@[i as int].0,
    {
        &self.entries[i].0
    }

    /// The value of the entry at position `i`.
    pub fn value_at(&self, i: usize) -> (v: &Vec<u8>)
        requires
            i < self@.len(),
        ensures
            v@ == self@[i as int].1,
    {
        &self.entries[i].1
    }

    /// Looks a key up; the answer is pinned to the record's map.
    pub fn get(&self, key: &Vec<u8>) -> (r: Option<&Vec<u8>>)
        requires
            self.wf(),
        ensures
            match r {
                Some(v) => self.as_map().contains_key(key@) && v@ == self.as_map()[key@],
                None => !self.as_map().contains_key(key@),
            },
    {
        proof {
            lemma_map_of_contains(self@);
        }
        let mut i: usize = 0;
        while i < self.entries.len()
            invariant
                i <= self@.len(),
                self@.len() == self.entries@.len(),
                self.wf(),
                forall|j: int| 0 <= j < i ==> self@[j].0 != key@,
            decreases self@.len() - i,
        {
            if bytes_eq(&self.entries[i].0, key) {
                proof {
                    assert(self@[i as int].0 == key@);
                    lemma_map_of_index(self@, i as int);
                }
                return Some(&self.entries[i].1);
            }
            i = i + 1;
        }
        proof {
            assert(!seq_has_key(self@, key@));
        }
        None
    }

    /// Whether the record carries the key.
    pub fn contains_key(&self, key: &Vec<u8>) -> (b: bool)
        requires
            self.wf(),
        ensures
            b == self.as_map().contains_key(key@),
            b == seq_has_key(self@, key@),
    {
        proof {
            lemma_map_of_contains(self@);
        }
        match self.get(key) {
            Some(_) => true,
            None => false,
        }
    }

    /// Inserts a key-value pair: a fresh key is appended, an existing key has
    /// its value replaced in place.
    pub fn insert(&mut self, key: Vec<u8>, value: Vec<u8>)
        requires
            old(self).wf(),
        ensures
            final(self).wf(),
            final(self).as_map() == old(self).as_map().insert(key@, value@),
            !seq_has_key(old(self)@, key@)
                ==> final(self)@ == old(self)@.push((key@, value@)),
            seq_has_key(old(self)@, key@)
                ==> exists|j: int|
                    0 <= j < old(self)@.len() && old(self)@[j].0 == key@
                    && final(self)@ == old(self)@.update(j, (key@, value@)),
    {
        proof {
            lemma_map_of_contains(self@);
        }
        let ghost pre = self@;
        let mut i: usize = 0;
        while i < self.entries.len()
            invariant
                i <= self@.len(),
                self@.len() == self.entries@.len(),
                self.wf(),
                self@ == pre,
                pre == old(self)@,
                forall|j: int| 0 <= j < i ==> self@[j].0 != key@,
            decreases self@.len() - i,
        {
            if bytes_eq(&self.entries[i].0, &key) {
                proof {
                    assert(pre[i as int].0 == self.entries@[i as int].0@);
                    assert(pre[i as int].0 == key@);
                    assert(seq_has_key(pre, key@));
                    lemma_map_of_update(pre, i as int, value@);
                }
                self.entries.remove(i);
                self.entries.insert(i, (key, value));
                proof {
                    assert(self@ =~= pre.update(i as int, (key@, value@)));
                    assert((key@, value@) == (pre[i as int].0, value@));
                    assert(self.as_map() == map_of(pre).insert(key@, value@));
                    assert forall|x: int, y: int|
                        0 <= x < y < self@.len() implies self@[x].0 != self@[y].0 by {
                        if x != i && y != i {
                            assert(pre[x].0 != pre[y].0);
                        } else if x == i as int {
                            assert(pre[x].0 == key@);
                            assert(pre[x].0 != pre[y].0);
                        } else {
                            assert(pre[y].0 == key@);
                            assert(pre[x].0 != pre[y].0);
                        }
                    }
                }
                return;
            }
            i = i + 1;
        }
        proof {
            assert(!seq_has_key(pre, key@));
            lemma_map_of_push(pre, key@, value@);
        }
        let ghost k = key@;
        let ghost v = value@;
        self.entries.push((key, value));
        proof {
            assert(self@ =~= pre.push((k, v)));
            assert forall|x: int, y: int|
                0 <= x < y < self@.len() implies self@[x].0 != self@[y].0 by {
                if y < pre.len() {
                    assert(pre[x].0 != pre[y].0);
                } else {
                    if pre[x].0 == k {
                        assert(seq_has_key(pre, k));
                    }
                }
            }
        }
    }

    /// Copies the record, entry for entry.
    pub fn duplicate(&self) -> (m: ByteMap)
        ensures
            m@ == self@,
    {
        let mut out: Vec<(Vec<u8>, Vec<u8>)> = Vec::new();
        let mut i: usize = 0;
        while i < self.entries.len()
            invariant
                i <= self.entries@.len(),
                out@.len() == i,
                forall|j: int| 0 <= j < i ==> (out@[j].0@, out@[j].1@) == self@[j],
            decreases self.entries@.len() - i,
        {
            out.push((clone_bytes(&self.entries[i].0), clone_bytes(&self.entries[i].1)));
            i = i + 1;
        }
        let m = ByteMap { entries: out };
        proof {
            assert(m@ =~= self@);
        }
        m
    }

    /// Unions this record with another. Every key of exactly one side keeps
    /// its value; a key of both sides must carry the same value on both, or
    /// the union is refused.
    pub fn merge(&self, other: &ByteMap) -> (r: Result<ByteMap, ()>)
        requires
            self.wf(),
            other.wf(),
        ensures
            match r {
                Ok(m) => {
                    &&& m.wf()
                    &&& maps_compatible(self.as_map(), other.as_map())
                    &&& m@ == merge_seq(self@, other@)
                    &&& m.as_map() == self.as_map().union_prefer_right(other.as_map())
                },
                Err(()) => !maps_compatible(self.as_map(), other.as_map()),
            },
    {
        proof {
            lemma_map_of_contains(self@);
            lemma_map_of_contains(other@);
        }
        let mut out: Vec<(Vec<u8>, Vec<u8>)> = Vec::new();
        let mut i: usize = 0;
        while i < self.entries.len()
            invariant
                i <= self.entries@.len(),
                out@.len() == i,
                forall|j: int| 0 <= j < i ==> (out@[j].0@, out@[j].1@) == self@[j],
            decreases self.entries@.len() - i,
        {
            out.push((clone_bytes(&self.entries[i].0), clone_bytes(&self.entries[i].1)));
            i = i + 1;
        }
        let mut m = ByteMap { entries: out };
        proof {
            assert(m@ =~= self@);
            assert(m@ == merge_seq(self@, other@.take(0)));
        }
        let mut j: usize = 0;
        while j < other.entries.len()
            invariant
                j <= other@.len(),
                other@.len() == other.entries@.len(),
                self.wf(),
                other.wf(),
                m.wf(),
                m@ == merge_seq(self@, other@.take(j as int)),
                forall|k: Seq<u8>| #![auto]
                    self.as_map().contains_key(k) && map_of(other@.take(j as int)).contains_key(k)
                    ==> self.as_map()[k] == map_of(other@.take(j as int))[k],
            decreases other@.len() - j,
        {
            let ghost jj = j as int;
            proof {
                assert(other@[jj].0 == other.entries@[jj].0@);
                assert(other@[jj].1 == other.entries@[jj].1@);
                lemma_keys_unique_take(other@, jj);
                lemma_keys_unique_take(other@, jj + 1);
                assert(other@.take(jj + 1).drop_last() =~= other@.take(jj));
                assert(other@.take(jj + 1).last() == other@[jj]);
                assert(map_of(other@.take(jj + 1))
                    == map_of(other@.take(jj)).insert(other@[jj].0, other@[jj].1));
                lemma_map_of_contains(other@.take(jj + 1));
                lemma_map_of_contains(other@.take(jj));
                lemma_map_of_contains(self@);
            }
            match self.get(&other.entries[j].0) {
                Some(v) => {
                    if !bytes_eq(v, &other.entries[j].1) {
                        proof {
                            lemma_map_of_index(other@, jj);
                            assert(self.as_map().contains_key(other@[jj].0));
                            assert(other.as_map().contains_key(other@[jj].0));
                            assert(self.as_map()[other@[jj].0] != other.as_map()[other@[jj].0]);
                        }
                        return Err(());
                    }
                    proof {
                        assert(seq_has_key(self@, other@[jj].0));
                        assert(m@ == merge_seq(self@, other@.take(jj + 1)));
                        lemma_map_of_index(other@.take(jj + 1), jj);
                        assert forall|k: Seq<u8>| #![auto]
                            self.as_map().contains_key(k)
                            && map_of(other@.take(jj + 1)).contains_key(k)
                            implies self.as_map()[k] == map_of(other@.take(jj + 1))[k] by {
                            if k == other@[jj].0 {
                            } else {
                                assert(map_of(other@.take(jj + 1))
                                    == map_of(other@.take(jj)).insert(other@[jj].0, other@[jj].1));
                                assert(map_of(other@.take(jj))[k]
                                    == map_of(other@.take(jj + 1))[k]);
                            }
                        }
                    }
                }
                None => {
                    proof {
                        assert(!seq_has_key(self@, other@[jj].0));
                        lemma_merge_seq_map(self@, other@.take(jj));
                        assert(!seq_has_key(merge_seq(self@, other@.take(jj)), other@[jj].0));
                        lemma_last_key_fresh(other@.take(jj + 1));
                    }
                    let ghost mpre = m@;
                    m.entries.push((
                        clone_bytes(&other.entries[j].0),
                        clone_bytes(&other.entries[j].1),
                    ));
                    proof {
                        assert(m@ =~= mpre.push((other@[jj].0, other@[jj].1)));
                        assert(m@ == merge_seq(self@, other@.take(jj + 1)));
                        assert forall|x: int, y: int|
                            0 <= x < y < m@.len() implies m@[x].0 != m@[y].0 by {
                            if y < mpre.len() {
                                assert(mpre[x].0 != mpre[y].0);
                            } else {
                                if mpre[x].0 == other@[jj].0 {
                                    assert(seq_has_key(mpre, other@[jj].0));
                                }
                            }
                        }
                        assert forall|k: Seq<u8>| #![auto]
                            self.as_map().contains_key(k)
                            && map_of(other@.take(jj + 1)).contains_key(k)
                            implies self.as_map()[k] == map_of(other@.take(jj + 1))[k] by {
                            lemma_map_of_contains(other@.take(jj + 1));
                            if k == other@[jj].0 {
                                assert(!self.as_map().contains_key(k));
                            } else {
                                assert(map_of(other@.take(jj))[k]
                                    == map_of(other@.take(jj + 1))[k]);
                                assert(map_of(other@.take(jj)).contains_key(k));
                            }
                        }
                    }
                }
            }
            j = j + 1;
        }
        proof {
            assert(j as int == other@.len());
            assert(other@.take(other@.len() as int) =~= other@);
            assert(maps_compatible(self.as_map(), other.as_map()));
            lemma_merge_seq_map(self@, other@);
        }
        Ok(m)
    }
}

/// A prefix of a sequence with pairwise distinct keys keeps them distinct.
pub proof fn lemma_keys_unique_take<V>(s: Seq<(Seq<u8>, V)>, n: int)
    requires
        keys_unique(s),
        0 <= n <= s.len(),
    ensures
        keys_unique(s.take(n)),
{
    assert forall|i: int, j: int|
        0 <= i < j < s.take(n).len() implies s.take(n)[i].0 != s.take(n)[j].0 by {
        assert(s.take(n)[i] == s[i]);
        assert(s.take(n)[j] == s[j]);
    }
}

} // verus!
