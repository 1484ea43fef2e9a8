//! Records from public keys (and extended public keys) to their key sources,
//! as used by the global xpub map and the per-input and per-output BIP32
//! derivation maps. Same model as `kvmap`: an association list with pairwise
//! distinct byte-string keys, whose mathematical content is a finite map.

use vstd::prelude::*;
use crate::bytes::bytes_eq;
use crate::bytes::clone_bytes;
use crate::kvmap::keys_unique;
use crate::kvmap::lemma_keys_unique_take;
use crate::kvmap::lemma_last_key_fresh;
use crate::kvmap::lemma_map_of_contains;
use crate::kvmap::lemma_map_of_index;
use crate::kvmap::lemma_map_of_push;
use crate::kvmap::lemma_map_of_update;
use crate::kvmap::lemma_merge_seq_map;
use crate::kvmap::map_of;
use crate::kvmap::maps_compatible;
use crate::kvmap::merge_seq;
use crate::kvmap::seq_has_key;
use crate::primitives::KeySource;
use crate::primitives::KeySourceView;

use crate::primitives::key_source_eq;

verus! {

/// A record from opaque key bytes to the key's source.
#[derive(Debug)]
pub struct SourceMap {
    entries: Vec<(Vec<u8>, KeySource)>,
}

impl View for SourceMap {
    type V = Seq<(Seq<u8>, KeySourceView)>;

    closed spec fn view(&self) -> Seq<(Seq<u8>, KeySourceView)> {
        Seq::new(self.entries@.len(), |i: int| (self.entries@[i].0@, self.entries@[i].1@))
    }
}

impl SourceMap {
    /// Well-formed: the keys are pairwise distinct.
    pub open spec fn wf(&self) -> bool {
        keys_unique(self@)
    }

    /// The finite map this record describes.
    pub open spec fn as_map(&self) -> Map<Seq<u8>, KeySourceView> {
        map_of(self@)
    }

    /// The empty record.
    pub fn new() -> (m: SourceMap)
        ensures
            m@ == Seq::<(Seq<u8>, KeySourceView)>::empty(),
            m.wf(),
    {
        let m = SourceMap { entries: Vec::new() };
        proof {
            assert(m@ =~= Seq::<(Seq<u8>, KeySourceView)>::empty());
        }
        m
    }

    /// The number of entries.
    pub fn len(&self) -> (n: usize)
        ensures
            n == self@.len(),
    {
        self.entries.len()
    }

    /// Whether the record holds no entry.
    pub fn is_empty(&self) -> (b: bool)
        ensures
            b == (self@.len() == 0),
    {
        self.entries.len() == 0
    }

    /// The key of the entry at position `i`.
    pub fn key_at(&self, i: usize) -> (k: &Vec<u8>)
        requires
            i < self@.len(),
        ensures
            k@ == self@[i as int].0,
    {
        &self.entries[i].0
    }

    /// The key source of the entry at position `i`.
    pub fn source_at(&self, i: usize) -> (v: &KeySource)
        requires
            i < self@.len(),
        ensures
            v@ == self@[i as int].1,
    {
        &self.entries[i].1
    }

    /// Looks a key up; the answer is pinned to the record's map.
    pub fn get(&self, key: &Vec<u8>) -> (r: Option<&KeySource>)
        requires
            self.wf(),
        ensures
            match r {
                Some(v) => self.as_map().contains_key(key@) && v@ == self.as_map()[key@],
                None => !self.as_map().contains_key(key@),
            },
    {
        proof {
            lemma_map_of_contains(self@);
        }
        let mut i: usize = 0;
        while i < self.entries.len()
            invariant
                i <= self@.len(),
                self@.len() == self.entries@.len(),
                self.wf(),
                forall|j: int| 0 <= j < i ==> self@[j].0 != key@,
            decreases self@.len() - i,
        {
            if bytes_eq(&self.entries[i].0, key) {
                proof {
                    assert(self@[i as int].0 == key@);
                    lemma_map_of_index(self@, i as int);
                }
                return Some(&self.entries[i].1);
            }
            i = i + 1;
        }
        proof {
            assert(!seq_has_key(self@, key@));
        }
        None
    }

    /// Whether the record carries the key.
    pub fn contains_key(&self, key: &Vec<u8>) -> (b: bool)
        requires
            self.wf(),
        ensures
            b == self.as_map().contains_key(key@),
            b == seq_has_key(self@, key@),
    {
        proof {
            lemma_map_of_contains(self@);
        }
        match self.get(key) {
            Some(_) => true,
            None => false,
        }
    }

    /// Inserts a key and its source: a fresh key is appended, an existing key
    /// has its source replaced in place.
    pub fn insert(&mut self, key: Vec<u8>, value: KeySource)
        requires
            old(self).wf(),
        ensures
            final(self).wf(),
            final(self).as_map() == old(self).as_map().insert(key@, value@),
            !seq_has_key(old(self)@, key@)
                ==> final(self)@ == old(self)@.push((key@, value@)),
            seq_has_key(old(self)@, key@)
                ==> exists|j: int|
                    0 <= j < old(self)@.len() && old(self)@[j].0 == key@
                    && final(self)@ == old(self)@.update(j, (key@, value@)),
    {
        proof {
            lemma_map_of_contains(self@);
        }
        let ghost pre = self@;
        let mut i: usize = 0;
        while i < self.entries.len()
            invariant
                i <= self@.len(),
                self@.len() == self.entries@.len(),
                self.wf(),
                self@ == pre,
                pre == old(self)@,
                forall|j: int| 0 <= j < i ==> self@[j].0 != key@,
            decreases self@.len() - i,
        {
            if bytes_eq(&self.entries[i].0, &key) {
                proof {
                    assert(pre[i as int].0 == self.entries@[i as int].0@);
                    assert(pre[i as int].0 == key@);
                    assert(seq_has_key(pre, key@));
                    lemma_map_of_update(pre, i as int, value@);
                }
                self.entries.remove(i);
                self.entries.insert(i, (key, value));
                proof {
                    assert(self@ =~= pre.update(i as int, (key@, value@)));
                    assert((key@, value@) == (pre[i as int].0, value@));
                    assert(self.as_map() == map_of(pre).insert(key@, value@));
                    assert forall|x: int, y: int|
                        0 <= x < y < self@.len() implies self@[x].0 != self@[y].0 by {
                        if x != i && y != i {
                            assert(pre[x].0 != pre[y].0);
                        } else if x == i as int {
                            assert(pre[x].0 == key@);
                            assert(pre[x].0 != pre[y].0);
                        } else {
                            assert(pre[y].0 == key@);
                            assert(pre[x].0 != pre[y].0);
                        }
                    }
                }
                return;
            }
            i = i + 1;
        }
        proof {
            assert(!seq_has_key(pre, key@));
            lemma_map_of_push(pre, key@, value@);
        }
        let ghost k = key@;
        let ghost v = value@;
        self.entries.push((key, value));
        proof {
            assert(self@ =~= pre.push((k, v)));
            assert forall|x: int, y: int|
                0 <= x < y < self@.len() implies self@[x].0 != self@[y].0 by {
                if y < pre.len() {
                    assert(pre[x].0 != pre[y].0);
                } else {
                    if pre[x].0 == k {
                        assert(seq_has_key(pre, k));
                    }
                }
            }
        }
    }

    /// Copies the record, entry for entry.
    pub fn duplicate(&self) -> (m: SourceMap)
        ensures
            m@ == self@,
    {
        let mut out: Vec<(Vec<u8>, KeySource)> = Vec::new();
        let mut i: usize = 0;
        while i < self.entries.len()
            invariant
                i <= self.entries@.len(),
                out@.len() == i,
                forall|j: int| 0 <= j < i ==> (out@[j].0@, out@[j].1@) == self@[j],
            decreases self.entries@.len() - i,
        {
            out.push((clone_bytes(&self.entries[i].0), self.entries[i].1.clone_source()));
            i = i + 1;
        }
        let m = SourceMap { entries: out };
        proof {
            assert(m@ =~= self@);
        }
        m
    }

    /// Unions this record with another, exactly as `ByteMap::merge` does:
    /// shared keys must carry the same source on both sides.
    pub fn merge(&self, other: &SourceMap) -> (r: Result<SourceMap, ()>)
        requires
            self.wf(),
            other.wf(),
        ensures
            match r {
                Ok(m) => {
                    &&& m.wf()
                    &&& maps_compatible(self.as_map(), other.as_map())
                    &&& m@ == merge_seq(self@, other@)
                    &&& m.as_map() == self.as_map().union_prefer_right(other.as_map())
                },
                Err(()) => !maps_compatible(self.as_map(), other.as_map()),
            },
    {
        proof {
            lemma_map_of_contains(self@);
            lemma_map_of_contains(other@);
        }
        let mut out: Vec<(Vec<u8>, KeySource)> = Vec::new();
        let mut i: usize = 0;
        while i < self.entries.len()
            invariant
                i <= self.entries@.len(),
                out@.len() == i,
                forall|j: int| 0 <= j < i ==> (out@[j].0@, out@[j].1@) == self@[j],
            decreases self.entries@.len() - i,
        {
            out.push((clone_bytes(&self.entries[i].0), self.entries[i].1.clone_source()));
            i = i + 1;
        }
        let mut m = SourceMap { entries: out };
        proof {
            assert(m@ =~= self@);
            assert(m@ == merge_seq(self@, other@.take(0)));
        }
        let mut j: usize = 0;
        while j < other.entries.len()
            invariant
                j <= other@.len(),
                other@.len() == other.entries@.len(),
                self.wf(),
                other.wf(),
                m.wf(),
                m@ == merge_seq(self@, other@.take(j as int)),
                forall|k: Seq<u8>| #![auto]
                    self.as_map().contains_key(k) && map_of(other@.take(j as int)).contains_key(k)
                    ==> self.as_map()[k] == map_of(other@.take(j as int))[k],
            decreases other@.len() - j,
        {
            let ghost jj = j as int;
            proof {
                assert(other@[jj].0 == other.entries@[jj].0@);
                assert(other@[jj].1 == other.entries@[jj].1@);
                lemma_keys_unique_take(other@, jj);
                lemma_keys_unique_take(other@, jj + 1);
                assert(other@.take(jj + 1).drop_last() =~= other@.take(jj));
                assert(other@.take(jj + 1).last() == other@[jj]);
                assert(map_of(other@.take(jj + 1))
                    == map_of(other@.take(jj)).insert(other@[jj].0, other@[jj].1));
                lemma_map_of_contains(other@.take(jj + 1));
                lemma_map_of_contains(other@.take(jj));
                lemma_map_of_contains(self@);
            }
            match self.get(&other.entries[j].0) {
                Some(v) => {
                    if !key_source_eq(v, &other.entries[j].1) {
                        proof {
                            lemma_map_of_index(other@, jj);
                            assert(self.as_map().contains_key(other@[jj].0));
                            assert(other.as_map().contains_key(other@[jj].0));
                            assert(self.as_map()[other@[jj].0] != other.as_map()[other@[jj].0]);
                        }
                        return Err(());
                    }
                    proof {
                        assert(seq_has_key(self@, other@[jj].0));
                        assert(m@ == merge_seq(self@, other@.take(jj + 1)));
                        lemma_map_of_index(other@.take(jj + 1), jj);
                        assert forall|k: Seq<u8>| #![auto]
                            self.as_map().contains_key(k)
                            && map_of(other@.take(jj + 1)).contains_key(k)
                            implies self.as_map()[k] == map_of(other@.take(jj + 1))[k] by {
                            if k == other@[jj].0 {
                            } else {
                                assert(map_of(other@.take(jj))[k]
                                    == map_of(other@.take(jj + 1))[k]);
                            }
                        }
                    }
                }
                None => {
                    proof {
                        assert(!seq_has_key(self@, other@[jj].0));
                        lemma_merge_seq_map(self@, other@.take(jj));
                        assert(!seq_has_key(merge_seq(self@, other@.take(jj)), other@[jj].0));
                        lemma_last_key_fresh(other@.take(jj + 1));
                    }
                    let ghost mpre = m@;
                    m.entries.push((
                        clone_bytes(&other.entries[j].0),
                        other.entries[j].1.clone_source(),
                    ));
                    proof {
                        assert(m@ =~= mpre.push((other@[jj].0, other@[jj].1)));
                        assert(m@ == merge_seq(self@, other@.take(jj + 1)));
                        assert forall|x: int, y: int|
                            0 <= x < y < m@.len() implies m@[x].0 != m@[y].0 by {
                            if y < mpre.len() {
                                assert(mpre[x].0 != mpre[y].0);
                            } else {
                                if mpre[x].0 == other@[jj].0 {
                                    assert(seq_has_key(mpre, other@[jj].0));
                                }
                            }
                        }
                        assert forall|k: Seq<u8>| #![auto]
                            self.as_map().contains_key(k)
                            && map_of(other@.take(jj + 1)).contains_key(k)
                            implies self.as_map()[k] == map_of(other@.take(jj + 1))[k] by {
                            lemma_map_of_contains(other@.take(jj + 1));
                            if k == other@[jj].0 {
                                assert(!self.as_map().contains_key(k));
                            } else {
                                assert(map_of(other@.take(jj))[k]
                                    == map_of(other@.take(jj + 1))[k]);
                                assert(map_of(other@.take(jj)).contains_key(k));
                            }
                        }
                    }
                }
            }
            j = j + 1;
        }
        proof {
            assert(j as int == other@.len());
            assert(other@.take(other@.len() as int) =~= other@);
            assert(maps_compatible(self.as_map(), other.as_map()));
            lemma_merge_seq_map(self@, other@);
        }
        Ok(m)
    }
}

} // verus!
