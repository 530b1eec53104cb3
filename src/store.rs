use vstd::prelude::*;
use vstd::slice::slice_to_vec;

verus! {

/// Two-byte big-endian length of a namespace tag, followed by the tag itself.
pub open spec fn spec_length_prefixed(tag: Seq<u8>) -> Seq<u8> {
    seq![(tag.len() / 256) as u8, (tag.len() % 256) as u8] + tag
}

/// The full storage key of `key` inside the partition named `tag`.
pub open spec fn spec_namespaced_key(tag: Seq<u8>, key: Seq<u8>) -> Seq<u8> {
    spec_length_prefixed(tag) + key
}

/// Different (tag, key) pairs always give different storage keys, even when one
/// tag is a byte-prefix of the other or the raw keys coincide.
pub proof fn lemma_namespaced_key_injective(t1: Seq<u8>, k1: Seq<u8>, t2: Seq<u8>, k2: Seq<u8>)
    requires
        t1.len() < 65536,
        t2.len() < 65536,
        spec_namespaced_key(t1, k1) == spec_namespaced_key(t2, k2),
    ensures
        t1 == t2,
        k1 == k2,
{
    let a = spec_namespaced_key(t1, k1);
    let b = spec_namespaced_key(t2, k2);
    assert(a[0] == b[0] && a[1] == b[1]);
    assert(t1.len() == t2.len()) by {
        assert(a[0] as int == t1.len() / 256);
        assert(a[1] as int == t1.len() % 256);
        assert(b[0] as int == t2.len() / 256);
        assert(b[1] as int == t2.len() % 256);
    }
    assert(t1 =~= a.subrange(2, 2 + t1.len() as int));
    assert(t2 =~= b.subrange(2, 2 + t2.len() as int));
    assert(k1 =~= a.subrange(2 + t1.len() as int, a.len() as int));
    assert(k2 =~= b.subrange(2 + t2.len() as int, b.len() as int));
}

/// Partitions with different tags never share a storage key.
pub proof fn lemma_partitions_disjoint(t1: Seq<u8>, k1: Seq<u8>, t2: Seq<u8>, k2: Seq<u8>)
    requires
        t1.len() < 65536,
        t2.len() < 65536,
        t1 != t2,
    ensures
        spec_namespaced_key(t1, k1) != spec_namespaced_key(t2, k2),
{
    if spec_namespaced_key(t1, k1) == spec_namespaced_key(t2, k2) {
        lemma_namespaced_key_injective(t1, k1, t2, k2);
    }
}

/// Builds the storage key of `key` inside the partition named `tag`.
pub fn namespaced_key(tag: &[u8], key: &[u8]) -> (r: Vec<u8>)
    requires
        tag@.len() < 65536,
    ensures
        r@ == spec_namespaced_key(tag@, key@),
{
    let n: usize = tag.len();
    let mut r: Vec<u8> = Vec::new();
    r.push((n / 256) as u8);
    r.push((n % 256) as u8);
    let mut i: usize = 0;
    while i < tag.len()
        invariant
            0 <= i <= tag@.len(),
            r@ == seq![(tag@.len() / 256) as u8, (tag@.len() % 256) as u8] + tag@.subrange(0, i as int),
        decreases tag@.len() - i,
    {
        r.push(tag[i]);
        i = i + 1;
        assert(tag@.subrange(0, i as int) =~= tag@.subrange(0, i - 1) + seq![tag@[i - 1]]);
    }
    assert(tag@.subrange(0, tag@.len() as int) =~= tag@);
    let mut j: usize = 0;
    while j < key.len()
        invariant
            0 <= j <= key@.len(),
            r@ == spec_length_prefixed(tag@) + key@.subrange(0, j as int),
        decreases key@.len() - j,
    {
        r.push(key[j]);
        j = j + 1;
        assert(key@.subrange(0, j as int) =~= key@.subrange(0, j - 1) + seq![key@[j - 1]]);
    }
    assert(key@.subrange(0, key@.len() as int) =~= key@);
    r
}

/// Byte-wise equality of two slices.
pub fn bytes_equal(a: &[u8], b: &[u8]) -> (r: bool)
    ensures
        r == (a@ == b@),
{
    if a.len() != b.len() {
        return false;
    }
    let mut i: usize = 0;
    while i < a.len()
        invariant
            a@.len() == b@.len(),
            0 <= i <= a@.len(),
            forall|k: int| 0 <= k < i ==> a@[k] == b@[k],
        decreases a@.len() - i,
    {
        if a[i] != b[i] {
            return false;
        }
        i = i + 1;
    }
    assert(a@ =~= b@);
    true
}

/// A byte key-value store: the model of the host's contract storage.
pub struct Store {
    entries: Vec<(Vec<u8>, Vec<u8>)>,
    contents: Ghost<Map<Seq<u8>, Seq<u8>>>,
}

impl View for Store {
    type V = Map<Seq<u8>, Seq<u8>>;

    closed spec fn view(&self) -> Map<Seq<u8>, Seq<u8>> {
        self.contents@
    }
}

impl Store {
    /// Each key is held once, and the entries are exactly the contents.
    pub closed spec fn wf(&self) -> bool {
        &&& forall|i: int, j: int|
            0 <= i < self.entries@.len() && 0 <= j < self.entries@.len() && i != j
                ==> self.entries@[i].0@ != self.entries@[j].0@
        &&& forall|i: int|
            0 <= i < self.entries@.len() ==> #[trigger] self.contents@.contains_key(
                self.entries@[i].0@,
            ) && self.contents@[self.entries@[i].0@] == self.entries@[i].1@
        &&& forall|k: Seq<u8>|
            #[trigger] self.contents@.contains_key(k) ==> exists|i: int|
                0 <= i < self.entries@.len() && self.entries@[i].0@ == k
    }

    pub fn new() -> (s: Store)
        ensures
            s.wf(),
            s@ == Map::<Seq<u8>, Seq<u8>>::empty(),
    {
        Store { entries: Vec::new(), contents: Ghost(Map::empty()) }
    }

    fn find(&self, key: &[u8]) -> (r: Option<usize>)
        requires
            self.wf(),
        ensures
            match r {
                Some(i) => i < self.entries@.len() && self.entries@[i as int].0@ == key@,
                None => !self@.contains_key(key@),
            },
    {
        let mut i: usize = 0;
        while i < self.entries.len()
            invariant
                self.wf(),
                0 <= i <= self.entries@.len(),
                forall|k: int| 0 <= k < i ==> self.entries@[k].0@ != key@,
            decreases self.entries@.len() - i,
        {
            if bytes_equal(self.entries[i].0.as_slice(), key) {
                return Some(i);
            }
            i = i + 1;
        }
        None
    }

    /// The value stored under `key`, if any.
    pub fn get(&self, key: &[u8]) -> (r: Option<Vec<u8>>)
        requires
            self.wf(),
        ensures
            match r {
                Some(v) => self@.contains_key(key@) && v@ == self@[key@],
                None => !self@.contains_key(key@),
            },
    {
        match self.find(key) {
            Some(i) => {
                assert(self.contents@.contains_key(self.entries@[i as int].0@));
                Some(slice_to_vec(self.entries[i].1.as_slice()))
            },
            None => None,
        }
    }

    /// Whether a value is stored under `key`.
    pub fn contains(&self, key: &[u8]) -> (r: bool)
        requires
            self.wf(),
        ensures
            r == self@.contains_key(key@),
    {
        self.find(key).is_some()
    }

    /// Stores `value` under `key`, replacing any earlier value.
    pub fn set(&mut self, key: &[u8], value: &[u8])
        requires
            old(self).wf(),
        ensures
            final(self).wf(),
            final(self)@ == old(self)@.insert(key@, value@),
    {
        let k: Vec<u8> = slice_to_vec(key);
        let v: Vec<u8> = slice_to_vec(value);
        let ghost old_entries = self.entries@;
        let ghost old_map = self.contents@;
        let ghost new_map = self.contents@.insert(key@, value@);
        match self.find(key) {
            Some(i) => {
                self.entries.set(i, (k, v));
                self.contents = Ghost(new_map);
                assert forall|kk: Seq<u8>| #[trigger] self.contents@.contains_key(kk) implies exists|j: int|
                    0 <= j < self.entries@.len() && self.entries@[j].0@ == kk by {
                    if kk == key@ {
                        assert(self.entries@[i as int].0@ == kk);
                    } else {
                        assert(old_map.contains_key(kk));
                        let j = choose|j: int| 0 <= j < old_entries.len() && old_entries[j].0@ == kk;
                        assert(self.entries@[j].0@ == kk);
                    }
                }
            },
            None => {
                self.entries.push((k, v));
                self.contents = Ghost(new_map);
                let ghost n = old_entries.len() as int;
                assert forall|kk: Seq<u8>| #[trigger] self.contents@.contains_key(kk) implies exists|j: int|
                    0 <= j < self.entries@.len() && self.entries@[j].0@ == kk by {
                    if kk == key@ {
                        assert(self.entries@[n].0@ == kk);
                    } else {
                        assert(old_map.contains_key(kk));
                        let j = choose|j: int| 0 <= j < old_entries.len() && old_entries[j].0@ == kk;
                        assert(self.entries@[j].0@ == kk);
                    }
                }
                assert forall|a: int| 0 <= a < n implies self.entries@[a].0@ != key@ by {
                    assert(old_map.contains_key(old_entries[a].0@));
                }
            },
        }
    }

    /// The stored pairs, each key once.
    pub fn entries(&self) -> (r: Vec<(Vec<u8>, Vec<u8>)>)
        requires
            self.wf(),
        ensures
            forall|k: Seq<u8>|
                #[trigger] self@.contains_key(k) ==> exists|i: int|
                    0 <= i < r@.len() && r@[i].0@ == k,
            forall|i: int|
                0 <= i < r@.len() ==> #[trigger] self@.contains_key(r@[i].0@) && self@[r@[i].0@]
                    == r@[i].1@,
    {
        let mut r: Vec<(Vec<u8>, Vec<u8>)> = Vec::new();
        let mut i: usize = 0;
        while i < self.entries.len()
            invariant
                self.wf(),
                0 <= i <= self.entries@.len(),
                r@.len() == i,
                forall|j: int|
                    0 <= j < i ==> r@[j].0@ == self.entries@[j].0@ && r@[j].1@
                        == self.entries@[j].1@,
            decreases self.entries@.len() - i,
        {
            let k: Vec<u8> = slice_to_vec(self.entries[i].0.as_slice());
            let v: Vec<u8> = slice_to_vec(self.entries[i].1.as_slice());
            r.push((k, v));
            i = i + 1;
        }
        assert forall|k: Seq<u8>| #[trigger] self@.contains_key(k) implies exists|i: int|
            0 <= i < r@.len() && r@[i].0@ == k by {
            let i = choose|i: int| 0 <= i < self.entries@.len() && self.entries@[i].0@ == k;
            assert(r@[i].0@ == k);
        }
        r
    }
}

} // verus!
