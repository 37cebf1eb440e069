use vstd::prelude::*;
use crate::bytes;

verus! {

/// Key storage for a peer's prekeys and one-time prekeys, by prekey id.
///
/// Independent handshakes may use one storage. `take` is the operation that
/// makes a one-time prekey serve one handshake only: it gets and deletes in
/// one step.
pub trait KeyStorage {
    /// What the storage holds: for each prekey id, the encoded key.
    spec fn keys(&self) -> Map<u32, Seq<u8>>;

    /// Whether the storage stores every value that it is given, now and
    /// after whatever is put into it or taken out of it.
    spec fn never_refuses(&self) -> bool;

    /// Stores the value under the id and overwrites any value that is
    /// there. Returns `true` if the value was stored; the storage is
    /// unchanged if it was not.
    fn put(&mut self, id: u32, value: Vec<u8>) -> (stored: bool)
        ensures
            stored ==> final(self).keys() == old(self).keys().insert(id, value@),
            !stored ==> final(self).keys() == old(self).keys(),
            old(self).never_refuses() ==> stored,
            final(self).never_refuses() == old(self).never_refuses(),
    ;

    /// Finds the value under the id. Returns it, `None` if there is none.
    fn get(&self, id: u32) -> (r: Option<Vec<u8>>)
        ensures
            match r {
                Some(value) => self.keys().contains_key(id) && self.keys()[id] == value@,
                None => !self.keys().contains_key(id),
            },
    ;

    /// Finds the value under the id. Returns it and deletes it from the
    /// storage, `None` if there is none.
    fn take(&mut self, id: u32) -> (r: Option<Vec<u8>>)
        ensures
            match r {
                Some(value) => old(self).keys().contains_key(id) && old(self).keys()[id]
                    == value@,
                None => !old(self).keys().contains_key(id),
            },
            final(self).keys() == old(self).keys().remove(id),
            final(self).never_refuses() == old(self).never_refuses(),
    ;
}

/// One stored key.
pub struct StoredKey {
    id: u32,
    value: Vec<u8>,
}

/// What a list of stored keys holds; of two keys under one id, the later
/// counts.
pub closed spec fn spec_keys(entries: Seq<StoredKey>) -> Map<u32, Seq<u8>>
    decreases entries.len(),
{
    if entries.len() == 0 {
        Map::empty()
    } else {
        spec_keys(entries.drop_last()).insert(entries.last().id, entries.last().value@)
    }
}

/// A key storage in memory.
pub struct MemoryKeyStorage {
    entries: Vec<StoredKey>,
}

impl MemoryKeyStorage {
    /// An empty storage.
    pub fn new() -> (r: MemoryKeyStorage)
        ensures
            r.keys() == Map::<u32, Seq<u8>>::empty(),
    {
        MemoryKeyStorage { entries: Vec::new() }
    }

    /// Deletes every key under the id and returns the one that counted.
    fn remove(&mut self, id: u32) -> (r: Option<Vec<u8>>)
        ensures
            match r {
                Some(value) => old(self).keys().contains_key(id) && old(self).keys()[id]
                    == value@,
                None => !old(self).keys().contains_key(id),
            },
            final(self).keys() == old(self).keys().remove(id),
    {
        let mut kept: Vec<StoredKey> = Vec::new();
        let mut found: Option<Vec<u8>> = None;
        let ghost before = self.entries@;
        let n = self.entries.len();
        let mut i: usize = 0;
        assert(before.subrange(0, 0) =~= Seq::<StoredKey>::empty());
        assert(spec_keys(kept@) =~= spec_keys(before.subrange(0, 0)).remove(id));
        while i < n
            invariant
                i <= n,
                n == before.len(),
                self.entries@ =~= before.subrange(i as int, n as int),
                spec_keys(kept@) == spec_keys(before.subrange(0, i as int)).remove(id),
                match found {
                    Some(value) => spec_keys(before.subrange(0, i as int)).contains_key(id)
                        && spec_keys(before.subrange(0, i as int))[id] == value@,
                    None => !spec_keys(before.subrange(0, i as int)).contains_key(id),
                },
            decreases n - i,
        {
            let e = self.entries.remove(0);
            proof {
                let next = before.subrange(0, i + 1);
                assert(next.drop_last() =~= before.subrange(0, i as int));
                assert(next.last() == e);
                assert(self.entries@ =~= before.subrange(i + 1, n as int));
            }
            if e.id == id {
                assert(spec_keys(kept@) =~= spec_keys(before.subrange(0, i + 1)).remove(id));
                found = Some(e.value);
            } else {
                let ghost prev = kept@;
                kept.push(e);
                assert(kept@.drop_last() =~= prev);
                assert(spec_keys(kept@) =~= spec_keys(before.subrange(0, i + 1)).remove(id));
            }
            i += 1;
        }
        assert(before.subrange(0, n as int) =~= before);
        self.entries = kept;
        found
    }
}

impl KeyStorage for MemoryKeyStorage {
    closed spec fn keys(&self) -> Map<u32, Seq<u8>> {
        spec_keys(self.entries@)
    }

    open spec fn never_refuses(&self) -> bool {
        true
    }

    fn put(&mut self, id: u32, value: Vec<u8>) -> (stored: bool)
        ensures
            stored,
    {
        let _ = self.remove(id);
        let ghost prev = self.entries@;
        let ghost stored_value = value@;
        self.entries.push(StoredKey { id, value });
        assert(self.entries@.drop_last() =~= prev);
        assert(self.keys() =~= old(self).keys().insert(id, stored_value));
        true
    }

    fn get(&self, id: u32) -> (r: Option<Vec<u8>>) {
        let mut found: Option<Vec<u8>> = None;
        let mut i: usize = 0;
        let ghost entries = self.entries@;
        assert(entries.subrange(0, 0) =~= Seq::<StoredKey>::empty());
        while i < self.entries.len()
            invariant
                i <= self.entries@.len(),
                entries == self.entries@,
                match found {
                    Some(value) => spec_keys(entries.subrange(0, i as int)).contains_key(id)
                        && spec_keys(entries.subrange(0, i as int))[id] == value@,
                    None => !spec_keys(entries.subrange(0, i as int)).contains_key(id),
                },
            decreases self.entries@.len() - i,
        {
            proof {
                let next = entries.subrange(0, i + 1);
                assert(next.drop_last() =~= entries.subrange(0, i as int));
                assert(next.last() == entries[i as int]);
            }
            if self.entries[i].id == id {
                found = Some(bytes::copy(self.entries[i].value.as_slice()));
            }
            i += 1;
        }
        assert(entries.subrange(0, entries.len() as int) =~= entries);
        found
    }

    fn take(&mut self, id: u32) -> (r: Option<Vec<u8>>) {
        self.remove(id)
    }
}

/// A one-time prekey serves one handshake: once it was taken, the storage
/// holds nothing under its id, whatever else was stored or taken before.
pub proof fn lemma_taken_key_is_gone(keys: Map<u32, Seq<u8>>, id: u32)
    ensures
        !keys.remove(id).contains_key(id),
        forall|other: u32|
            other != id ==> keys.remove(id).contains_key(other) == keys.contains_key(other),
{
}

} // verus!
