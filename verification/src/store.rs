//! The receiver's chunk store: per-path aggregation of streamed file
//! contents and delta chunks.
//!
//! Both maps are keyed by the destination path (as bytes). A file entry
//! accumulates the bytes of a multi-chunk contents upload together with the
//! hash the sender announced for the whole file; a delta entry accumulates
//! the bytes of a multi-chunk delta the same way. When a chunk arrives with
//! a hash different from the stored one, the sender abandoned the previous
//! upload: the partial state is discarded and the entry restarts with just
//! the new chunk.

use vstd::prelude::*;
use vstd::std_specs::cmp::PartialEqSpec;
use crate::hash::{sha256_of, shasum_bytes};

verus! {

/// One accumulating entry: the hash the sender announced for the whole
/// upload, and the bytes received so far.
pub struct ChunkEntry {
    pub shasum: Vec<u8>,
    pub bytes: Vec<u8>,
}

/// Keys of all entries are distinct.
pub open spec fn unique_keys(items: Seq<(Vec<u8>, ChunkEntry)>) -> bool {
    forall|i: int, j: int| 0 <= i < j < items.len() ==> items[i].0@ != items[j].0@
}

/// First entry whose key equals `path`, as (announced hash, bytes so far).
pub open spec fn lookup(items: Seq<(Vec<u8>, ChunkEntry)>, path: Seq<u8>) -> Option<
    (Seq<u8>, Seq<u8>),
>
    decreases items.len(),
{
    if items.len() == 0 {
        None
    } else if items[0].0@ == path {
        Some((items[0].1.shasum@, items[0].1.bytes@))
    } else {
        lookup(items.drop_first(), path)
    }
}

/// The bytes an entry holds after a chunk with hash `shasum` and data
/// `data` is pushed onto the previous state `prev`: appended when the hash
/// matches, restarted from just this chunk otherwise.
pub open spec fn pushed_bytes(
    prev: Option<(Seq<u8>, Seq<u8>)>,
    shasum: Seq<u8>,
    data: Seq<u8>,
) -> Seq<u8> {
    match prev {
        Some(e) => if e.0 == shasum {
            e.1 + data
        } else {
            data
        },
        None => data,
    }
}

/// A chunk bearing a hash different from the one stored for the same path
/// discards the partial state: the entry restarts with exactly that chunk's
/// bytes, whatever was accumulated before.
pub proof fn lemma_upload_restart(
    prev: Option<(Seq<u8>, Seq<u8>)>,
    shasum: Seq<u8>,
    data: Seq<u8>,
)
    requires
        match prev {
            Some(e) => e.0 != shasum,
            None => true,
        },
    ensures
        pushed_bytes(prev, shasum, data) == data,
{
}

proof fn lemma_lookup_found(items: Seq<(Vec<u8>, ChunkEntry)>, path: Seq<u8>, i: int)
    requires
        0 <= i < items.len(),
        items[i].0@ == path,
        forall|k: int| 0 <= k < i ==> items[k].0@ != path,
    ensures
        lookup(items, path) == Some((items[i].1.shasum@, items[i].1.bytes@)),
    decreases i,
{
    if i > 0 {
        lemma_lookup_found(items.drop_first(), path, i - 1);
    }
}

proof fn lemma_lookup_absent(items: Seq<(Vec<u8>, ChunkEntry)>, path: Seq<u8>)
    requires
        forall|k: int| 0 <= k < items.len() ==> items[k].0@ != path,
    ensures
        lookup(items, path) == None::<(Seq<u8>, Seq<u8>)>,
    decreases items.len(),
{
    if items.len() > 0 {
        lemma_lookup_absent(items.drop_first(), path);
    }
}

proof fn lemma_lookup_push(items: Seq<(Vec<u8>, ChunkEntry)>, pair: (Vec<u8>, ChunkEntry), p: Seq<u8>)
    ensures
        lookup(items.push(pair), p) == if lookup(items, p) is Some {
            lookup(items, p)
        } else if pair.0@ == p {
            Some((pair.1.shasum@, pair.1.bytes@))
        } else {
            None::<(Seq<u8>, Seq<u8>)>
        },
    decreases items.len(),
{
    if items.len() == 0 {
        let pushed = items.push(pair);
        assert(pushed[0] == pair);
        assert(pushed.drop_first() =~= Seq::<(Vec<u8>, ChunkEntry)>::empty());
        assert(lookup(pushed.drop_first(), p) == None::<(Seq<u8>, Seq<u8>)>);
        assert(lookup(items, p) == None::<(Seq<u8>, Seq<u8>)>);
    } else {
        assert(items.push(pair)[0] == items[0]);
        lemma_lookup_push(items.drop_first(), pair, p);
        assert(items.push(pair).drop_first() =~= items.drop_first().push(pair));
    }
}

proof fn lemma_lookup_update(
    items: Seq<(Vec<u8>, ChunkEntry)>,
    i: int,
    pair: (Vec<u8>, ChunkEntry),
    p: Seq<u8>,
)
    requires
        0 <= i < items.len(),
        pair.0@ == items[i].0@,
        forall|k: int| 0 <= k < i ==> items[k].0@ != items[i].0@,
    ensures
        lookup(items.update(i, pair), p) == if p == items[i].0@ {
            Some((pair.1.shasum@, pair.1.bytes@))
        } else {
            lookup(items, p)
        },
    decreases i,
{
    if i == 0 {
        assert(items.update(0, pair).drop_first() =~= items.drop_first());
    } else {
        lemma_lookup_update(items.drop_first(), i - 1, pair, p);
        assert(items.update(i, pair).drop_first() =~= items.drop_first().update(i - 1, pair));
    }
}

proof fn lemma_lookup_remove(items: Seq<(Vec<u8>, ChunkEntry)>, i: int, p: Seq<u8>)
    requires
        0 <= i < items.len(),
        unique_keys(items),
        forall|k: int| 0 <= k < i ==> items[k].0@ != items[i].0@,
    ensures
        lookup(items.remove(i), p) == if p == items[i].0@ {
            None::<(Seq<u8>, Seq<u8>)>
        } else {
            lookup(items, p)
        },
    decreases i,
{
    if i == 0 {
        assert(items.remove(0) =~= items.drop_first());
        if p == items[0].0@ {
            assert(forall|k: int|
                0 <= k < items.drop_first().len() ==> items.drop_first()[k].0@ != p);
            lemma_lookup_absent(items.drop_first(), p);
        }
    } else {
        assert(unique_keys(items.drop_first()));
        lemma_lookup_remove(items.drop_first(), i - 1, p);
        assert(items.remove(i).drop_first() =~= items.drop_first().remove(i - 1));
    }
}

/// One of the store's two maps, held as an association list with distinct
/// keys.
struct EntryList {
    items: Vec<(Vec<u8>, ChunkEntry)>,
}

impl EntryList {
    spec fn wf(self) -> bool {
        unique_keys(self.items@)
    }

    spec fn at(self, path: Seq<u8>) -> Option<(Seq<u8>, Seq<u8>)> {
        lookup(self.items@, path)
    }

    fn new() -> (r: EntryList)
        ensures
            r.wf(),
            forall|p: Seq<u8>| r.at(p) == None::<(Seq<u8>, Seq<u8>)>,
    {
        let r = EntryList { items: Vec::new() };
        proof {
            assert forall|p: Seq<u8>| r.at(p) == None::<(Seq<u8>, Seq<u8>)> by {
                lemma_lookup_absent(r.items@, p);
            }
        }
        r
    }

    /// Index of the entry for `path`, if one exists.
    fn find(&self, path: &Vec<u8>) -> (r: Option<usize>)
        ensures
            match r {
                Some(i) => i < self.items@.len() && self.items@[i as int].0@ == path@
                    && forall|k: int| 0 <= k < i ==> self.items@[k].0@ != path@,
                None => forall|k: int| 0 <= k < self.items@.len() ==> self.items@[k].0@ != path@,
            },
    {
        let n = self.items.len();
        let mut i: usize = 0;
        while i < n
            invariant
                i <= n,
                n == self.items@.len(),
                forall|k: int| 0 <= k < i ==> self.items@[k].0@ != path@,
            decreases n - i,
        {
            if self.items[i].0 == *path {
                proof {
                    let a = self.items@[i as int].0;
                    assert(a@ =~= path@);
                }
                return Some(i);
            }
            proof {
                let a = self.items@[i as int].0;
                if a@ == path@ {
                    assert(a@.len() == path@.len());
                    assert(forall|k: int| 0 <= k < a@.len() ==> a@[k] == path@[k]);
                    assert(a.eq_spec(path));
                }
            }
            i = i + 1;
        }
        None
    }

    /// Push one chunk: append to the entry when the hash matches, restart
    /// the entry otherwise; create it when absent. Returns the number of
    /// bytes the entry holds afterwards.
    fn push_chunk(&mut self, path: &Vec<u8>, shasum: &Vec<u8>, data: &[u8]) -> (total: usize)
        requires
            old(self).wf(),
        ensures
            final(self).wf(),
            final(self).at(path@) == Some(
                (shasum@, pushed_bytes(old(self).at(path@), shasum@, data@)),
            ),
            total == pushed_bytes(old(self).at(path@), shasum@, data@).len(),
            forall|p: Seq<u8>| p != path@ ==> final(self).at(p) == old(self).at(p),
    {
        let ghost old_items = self.items@;
        match self.find(path) {
            Some(i) => {
                proof {
                    lemma_lookup_found(old_items, path@, i as int);
                }
                let same = self.items[i].1.shasum == *shasum;
                proof {
                    let stored = old_items[i as int].1.shasum;
                    if same {
                        assert(stored@ =~= shasum@);
                    } else if stored@ == shasum@ {
                        assert(stored.eq_spec(shasum));
                    }
                }
                let e = &mut self.items[i];
                if same {
                    e.1.bytes.extend_from_slice(data);
                } else {
                    e.1 = ChunkEntry { shasum: shasum.clone(), bytes: crate::proto::copy_slice(data) };
                }
                let total = e.1.bytes.len();
                proof {
                    let pair = self.items@[i as int];
                    assert(self.items@ =~= old_items.update(i as int, pair));
                    if same {
                        assert(pair.1.bytes@ =~= old_items[i as int].1.bytes@ + data@);
                    }
                    assert(unique_keys(self.items@));
                    lemma_lookup_update(old_items, i as int, pair, path@);
                    assert forall|p: Seq<u8>| p != path@ implies final(self).at(p) == lookup(
                        old_items,
                        p,
                    ) by {
                        lemma_lookup_update(old_items, i as int, pair, p);
                    }
                }
                total
            },
            None => {
                proof {
                    lemma_lookup_absent(old_items, path@);
                }
                let entry = ChunkEntry { shasum: shasum.clone(), bytes: crate::proto::copy_slice(data) };
                let total = entry.bytes.len();
                self.items.push((path.clone(), entry));
                proof {
                    let pair = self.items@.last();
                    assert(self.items@ =~= old_items.push(pair));
                    assert(unique_keys(self.items@));
                    lemma_lookup_push(old_items, pair, path@);
                    assert forall|p: Seq<u8>| p != path@ implies final(self).at(p) == lookup(
                        old_items,
                        p,
                    ) by {
                        lemma_lookup_push(old_items, pair, p);
                    }
                }
                total
            },
        }
    }

    /// The announced hash of the entry for `path`, if one exists.
    fn hash_at(&self, path: &Vec<u8>) -> (r: Option<Vec<u8>>)
        ensures
            match self.at(path@) {
                Some(e) => (r matches Some(h) && h@ == e.0),
                None => r is None,
            },
    {
        match self.find(path) {
            Some(i) => {
                proof {
                    lemma_lookup_found(self.items@, path@, i as int);
                }
                Some(crate::proto::clone_bytes(&self.items[i].1.shasum))
            },
            None => {
                proof {
                    lemma_lookup_absent(self.items@, path@);
                }
                None
            },
        }
    }

    /// Remove the entry for `path`, returning it.
    fn take(&mut self, path: &Vec<u8>) -> (r: Option<ChunkEntry>)
        requires
            old(self).wf(),
        ensures
            final(self).wf(),
            match old(self).at(path@) {
                Some(e) => r is Some && r->0.shasum@ == e.0 && r->0.bytes@ == e.1,
                None => r is None,
            },
            final(self).at(path@) == None::<(Seq<u8>, Seq<u8>)>,
            forall|p: Seq<u8>| p != path@ ==> final(self).at(p) == old(self).at(p),
    {
        let ghost old_items = self.items@;
        match self.find(path) {
            Some(i) => {
                proof {
                    lemma_lookup_found(old_items, path@, i as int);
                }
                let (_, entry) = self.items.remove(i);
                proof {
                    assert(unique_keys(self.items@));
                    lemma_lookup_remove(old_items, i as int, path@);
                    assert forall|p: Seq<u8>| p != path@ implies final(self).at(p) == lookup(
                        old_items,
                        p,
                    ) by {
                        lemma_lookup_remove(old_items, i as int, p);
                    }
                }
                Some(entry)
            },
            None => {
                proof {
                    lemma_lookup_absent(old_items, path@);
                }
                None
            },
        }
    }
}

/// Store for in-flight uploads: accumulated file contents chunks and
/// accumulated delta chunks, each keyed by destination path.
pub struct Store {
    files: EntryList,
    deltas: EntryList,
}

impl Store {
    /// Both maps hold distinct keys.
    pub closed spec fn wf(self) -> bool {
        self.files.wf() && self.deltas.wf()
    }

    /// The file entry for `path`: the announced hash and the bytes so far.
    pub closed spec fn file_at(self, path: Seq<u8>) -> Option<(Seq<u8>, Seq<u8>)> {
        self.files.at(path)
    }

    /// The delta entry for `path`: the announced hash and the bytes so far.
    pub closed spec fn delta_at(self, path: Seq<u8>) -> Option<(Seq<u8>, Seq<u8>)> {
        self.deltas.at(path)
    }

    /// A store with no in-flight uploads.
    pub fn new() -> (r: Store)
        ensures
            r.wf(),
            forall|p: Seq<u8>| r.file_at(p) == None::<(Seq<u8>, Seq<u8>)>,
            forall|p: Seq<u8>| r.delta_at(p) == None::<(Seq<u8>, Seq<u8>)>,
    {
        Store { files: EntryList::new(), deltas: EntryList::new() }
    }

    /// Push one contents chunk for `path`. A chunk whose hash differs from
    /// the stored one discards the partial state and restarts the entry.
    /// Returns the number of bytes accumulated for `path` so far.
    pub fn push_file_chunk(&mut self, path: &Vec<u8>, shasum: &Vec<u8>, data: &[u8]) -> (total:
        usize)
        requires
            old(self).wf(),
        ensures
            final(self).wf(),
            final(self).file_at(path@) == Some(
                (shasum@, pushed_bytes(old(self).file_at(path@), shasum@, data@)),
            ),
            total == pushed_bytes(old(self).file_at(path@), shasum@, data@).len(),
            forall|p: Seq<u8>| p != path@ ==> final(self).file_at(p) == old(self).file_at(p),
            forall|p: Seq<u8>| final(self).delta_at(p) == old(self).delta_at(p),
    {
        self.files.push_chunk(path, shasum, data)
    }

    /// Push one delta chunk for `path`, with the same reset rule as for
    /// file chunks. Returns the number of delta bytes accumulated so far.
    pub fn push_delta_chunk(&mut self, path: &Vec<u8>, shasum: &Vec<u8>, data: &[u8]) -> (total:
        usize)
        requires
            old(self).wf(),
        ensures
            final(self).wf(),
            final(self).delta_at(path@) == Some(
                (shasum@, pushed_bytes(old(self).delta_at(path@), shasum@, data@)),
            ),
            total == pushed_bytes(old(self).delta_at(path@), shasum@, data@).len(),
            forall|p: Seq<u8>| p != path@ ==> final(self).delta_at(p) == old(self).delta_at(p),
            forall|p: Seq<u8>| final(self).file_at(p) == old(self).file_at(p),
    {
        self.deltas.push_chunk(path, shasum, data)
    }

    /// The hash the sender announced for the in-flight upload at `path`,
    /// if one exists.
    pub fn file_hash(&self, path: &Vec<u8>) -> (r: Option<Vec<u8>>)
        ensures
            match self.file_at(path@) {
                Some(e) => (r matches Some(h) && h@ == e.0),
                None => r is None,
            },
    {
        self.files.hash_at(path)
    }

    /// Remove the file entry for `path` and return the SHA-256 of the bytes
    /// it accumulated together with those bytes, if the entry existed.
    pub fn remove_file(&mut self, path: &Vec<u8>) -> (r: Option<(Vec<u8>, Vec<u8>)>)
        requires
            old(self).wf(),
        ensures
            final(self).wf(),
            match old(self).file_at(path@) {
                Some(e) => (r matches Some(x) && x.0@ == sha256_of(e.1) && x.1@ == e.1),
                None => r is None,
            },
            final(self).file_at(path@) == None::<(Seq<u8>, Seq<u8>)>,
            forall|p: Seq<u8>| p != path@ ==> final(self).file_at(p) == old(self).file_at(p),
            forall|p: Seq<u8>| final(self).delta_at(p) == old(self).delta_at(p),
    {
        match self.files.take(path) {
            Some(entry) => {
                let h = shasum_bytes(entry.bytes.as_slice());
                Some((h, entry.bytes))
            },
            None => None,
        }
    }

    /// Remove the delta entry for `path` and return the delta bytes it
    /// accumulated, if the entry existed.
    pub fn remove_delta(&mut self, path: &Vec<u8>) -> (r: Option<Vec<u8>>)
        requires
            old(self).wf(),
        ensures
            final(self).wf(),
            match old(self).delta_at(path@) {
                Some(e) => r is Some && r->0@ == e.1,
                None => r is None,
            },
            final(self).delta_at(path@) == None::<(Seq<u8>, Seq<u8>)>,
            forall|p: Seq<u8>| p != path@ ==> final(self).delta_at(p) == old(self).delta_at(p),
            forall|p: Seq<u8>| final(self).file_at(p) == old(self).file_at(p),
    {
        match self.deltas.take(path) {
            Some(entry) => Some(entry.bytes),
            None => None,
        }
    }
}

} // verus!
