//! In-memory cache of received MP3 files, keyed by file id, kept for the
//! whole app session so that reconnecting peers need not download again.
use std::collections::HashMap;
use vstd::prelude::*;
use vstd::std_specs::hash::spec_hash_map_iter;
use vstd::std_specs::iter::IteratorSpec;

verus! {

broadcast use vstd::std_specs::hash::group_hash_axioms;

/// Cache of file contents by id.
#[derive(Debug, Default)]
pub struct FileCache {
    files: HashMap<u128, Vec<u8>>,
}

impl FileCache {
    /// The cached files by id.
    pub closed spec fn view(&self) -> Map<u128, Seq<u8>> {
        self.files@.map_values(|d: Vec<u8>| d@)
    }

    pub fn new() -> (c: Self)
        ensures
            c@ == Map::<u128, Seq<u8>>::empty(),
    {
        let c = FileCache { files: HashMap::new() };
        assert(c@ =~= Map::<u128, Seq<u8>>::empty());
        c
    }

    /// Whether a file is cached.
    pub fn has(&self, file_id: &u128) -> (r: bool)
        ensures
            r == self@.contains_key(*file_id),
    {
        self.files.contains_key(file_id)
    }

    /// The bytes of a cached file.
    pub fn get(&self, file_id: &u128) -> (r: Option<&Vec<u8>>)
        ensures
            match r {
                Some(d) => self@.contains_key(*file_id) && d@ == self@[*file_id],
                None => !self@.contains_key(*file_id),
            },
    {
        self.files.get(file_id)
    }

    /// Insert (or replace) a file.
    pub fn insert(&mut self, file_id: u128, data: Vec<u8>)
        ensures
            final(self)@ == old(self)@.insert(file_id, data@),
    {
        let ghost d = data@;
        self.files.insert(file_id, data);
        assert(self@ =~= old(self)@.insert(file_id, d));
    }

    /// The ids of the cached files, each once, in no particular order.
    pub fn cached_ids(&self) -> (r: Vec<u128>)
        ensures
            r@.to_set() == self@.dom(),
            r@.no_duplicates(),
    {
        let mut out: Vec<u128> = Vec::new();
        let ghost v = spec_hash_map_iter(&self.files).remaining();
        for kv in it: self.files.iter()
            invariant
                out@.len() == it.index(),
                it.seq() == v,
                forall|j: int| 0 <= j < out@.len() ==> out@[j] == *it.seq()[j].0,
        {
            out.push(*kv.0);
        }
        proof {
            let m = self.files@;
            assert forall|k: u128| out@.to_set().contains(k) <==> self@.dom().contains(k) by {
                if m.contains_key(k) {
                    assert(v.contains((&k, &m[k])));
                    let i = choose|i: int| 0 <= i < v.len() && v[i] == (&k, &m[k]);
                    assert(out@[i] == k);
                }
                if out@.contains(k) {
                    let i = choose|i: int| 0 <= i < out@.len() && out@[i] == k;
                    assert(m.contains_key(*v[i].0));
                }
            }
            assert(out@.to_set() =~= self@.dom());
            assert forall|i: int, j: int|
                0 <= i < out@.len() && 0 <= j < out@.len() && i != j implies out@[i] != out@[j] by {
                if out@[i] == out@[j] {
                    assert(m[*v[i].0] == *v[i].1);
                    assert(m[*v[j].0] == *v[j].1);
                    assert(v[i] == v[j]);
                }
            }
        }
        out
    }

    /// Remove a file, returning its bytes if it was cached.
    pub fn remove(&mut self, file_id: &u128) -> (r: Option<Vec<u8>>)
        ensures
            final(self)@ == old(self)@.remove(*file_id),
            match r {
                Some(d) => old(self)@.contains_key(*file_id) && d@ == old(self)@[*file_id],
                None => !old(self)@.contains_key(*file_id),
            },
    {
        let r = self.files.remove(file_id);
        assert(self@ =~= old(self)@.remove(*file_id));
        r
    }

    /// Drop every cached file.
    pub fn clear(&mut self)
        ensures
            final(self)@ == Map::<u128, Seq<u8>>::empty(),
    {
        self.files.clear();
        assert(self@ =~= Map::<u128, Seq<u8>>::empty());
    }

    /// Number of cached files.
    pub fn len(&self) -> (n: usize)
        ensures
            n == self@.len(),
    {
        assert(self@.dom() =~= self.files@.dom());
        self.files.len()
    }

    /// Whether no file is cached.
    pub fn is_empty(&self) -> (b: bool)
        ensures
            b == (self@.len() == 0),
    {
        assert(self@.dom() =~= self.files@.dom());
        self.files.is_empty()
    }
}

/// Reading a file back after storing it gives the stored bytes, and
/// storing leaves every other file as it was.
pub proof fn law_cache_read_after_write(cache: Map<u128, Seq<u8>>, id: u128, data: Seq<u8>, other: u128)
    requires
        other != id,
    ensures
        cache.insert(id, data).contains_key(id),
        cache.insert(id, data)[id] == data,
        cache.insert(id, data).contains_key(other) == cache.contains_key(other),
        cache.contains_key(other) ==> cache.insert(id, data)[other] == cache[other],
{
}

/// Removing a file after storing it under a new id gives back the cache
/// as it was.
pub proof fn law_cache_insert_then_remove(cache: Map<u128, Seq<u8>>, id: u128, data: Seq<u8>)
    requires
        !cache.contains_key(id),
    ensures
        cache.insert(id, data).remove(id) == cache,
{
    assert(cache.insert(id, data).remove(id) =~= cache);
}

} // verus!
