//! The service registry: well-known keys mapped to request handles.
//!
//! A driver that wants to serve requests registers the producer handle of
//! its request channel under a well-known service key. Entries are created
//! once at registration and never change afterwards; registering an
//! already-occupied key fails, and a lookup sees a key either absent or
//! fully present, never half-registered.

use vstd::prelude::*;

verus! {

/// Why a registry operation failed.
#[derive(Clone, Copy, PartialEq, Eq, Structural, Debug)]
pub enum RegistryError {
    /// The key is already registered; the caller must pick another key or
    /// treat the existing service as the one to talk to.
    KeyOccupied,
    /// No service is registered under the key; the caller may treat the
    /// service as unavailable.
    NoSuchService,
}

/// One immutable registration: a service key and its request handle.
struct RegistryEntry<H> {
    key: u64,
    handle: H,
}

/// The mapping from service keys to request-accepting handles.
pub struct Registry<H> {
    entries: Vec<RegistryEntry<H>>,
}

impl<H> Registry<H> {
    /// The registered keys, in registration order.
    pub closed spec fn keys_spec(self) -> Seq<u64> {
        self.entries@.map_values(|e: RegistryEntry<H>| e.key)
    }

    /// Whether a service is registered under `key`.
    pub open spec fn contains_key(self, key: u64) -> bool {
        exists|i: int| 0 <= i < self.keys_spec().len() && self.keys_spec()[i] == key
    }

    /// The handle registered under `key` (meaningful when the key is
    /// present; keys are unique, so it is the handle of the one entry).
    pub closed spec fn handle_of(self, key: u64) -> H {
        self.entries@[choose|i: int|
            0 <= i < self.entries@.len() && self.entries@[i].key == key].handle
    }

    /// The registry as a map from keys to handles.
    pub open spec fn as_map(self) -> Map<u64, H> {
        Map::new(|k: u64| self.contains_key(k), |k: u64| self.handle_of(k))
    }

    /// Well-formed: every key is registered at most once.
    pub closed spec fn wf(self) -> bool {
        forall|i: int, j: int|
            0 <= i < j < self.entries@.len() ==> self.entries@[i].key != self.entries@[j].key
    }

    /// An empty registry.
    pub fn new() -> (r: Registry<H>)
        ensures
            r.wf(),
            r.keys_spec() == Seq::<u64>::empty(),
            r.as_map() == Map::<u64, H>::empty(),
    {
        let r = Registry { entries: Vec::new() };
        proof {
            assert(r.entries@.map_values(|e: RegistryEntry<H>| e.key) =~= Seq::<u64>::empty());
            assert(r.as_map() =~= Map::<u64, H>::empty());
        }
        r
    }

    /// Register `handle` as the service under `key`.
    ///
    /// Succeeds exactly when the key is free, adding the one immutable
    /// entry for it; an occupied key is refused with the registry — and
    /// every existing registration — untouched.
    pub fn register(&mut self, key: u64, handle: H) -> (r: Result<(), RegistryError>)
        requires
            old(self).wf(),
        ensures
            final(self).wf(),
            old(self).contains_key(key) ==> r == Err::<(), RegistryError>(
                RegistryError::KeyOccupied,
            ) && *final(self) == *old(self),
            !old(self).contains_key(key) ==> r == Ok::<(), RegistryError>(()) && final(self).contains_key(key) && final(self).as_map() == old(self).as_map().insert(key, handle) && final(self).keys_spec() == old(self).keys_spec().push(key),
    {
        let ghost pre = *self;
        let mut idx: usize = 0;
        while idx < self.entries.len() && self.entries[idx].key != key
            invariant
                *self == pre,
                0 <= idx <= self.entries@.len(),
                forall|j: int| 0 <= j < idx ==> self.entries@[j].key != key,
            decreases self.entries@.len() - idx,
        {
            idx = idx + 1;
        }
        if idx < self.entries.len() {
            proof {
                assert(pre.keys_spec()[idx as int] == key);
            }
            Err(RegistryError::KeyOccupied)
        } else {
            proof {
                assert(forall|i: int|
                    0 <= i < pre.keys_spec().len() ==> pre.keys_spec()[i] != key);
            }
            self.entries.push(RegistryEntry { key, handle });
            proof {
                assert(self.keys_spec() =~= pre.keys_spec().push(key));
                assert(self.entries@[self.entries@.len() - 1].key == key);
                assert(self.contains_key(key)) by {
                    assert(self.keys_spec()[self.keys_spec().len() - 1] == key);
                };
                lemma_unique_handle_of(*self, key, self.entries@.len() - 1);
                assert(forall|k: u64|
                    pre.contains_key(k) ==> #[trigger] self.contains_key(k) && k != key) by {
                    assert forall|k: u64| pre.contains_key(k) implies #[trigger] self.contains_key(
                        k,
                    ) && k != key by {
                        let i = choose|i: int|
                            0 <= i < pre.keys_spec().len() && pre.keys_spec()[i] == k;
                        assert(self.keys_spec()[i] == k);
                    }
                };
                assert(forall|k: u64|
                    #[trigger] self.contains_key(k) && k != key ==> pre.contains_key(k)) by {
                    assert forall|k: u64|
                        #[trigger] self.contains_key(k) && k != key implies pre.contains_key(
                        k,
                    ) by {
                        let i = choose|i: int|
                            0 <= i < self.keys_spec().len() && self.keys_spec()[i] == k;
                        assert(pre.keys_spec()[i] == k);
                    }
                };
                assert(forall|k: u64|
                    #[trigger] pre.contains_key(k) ==> self.handle_of(k) == pre.handle_of(k)) by {
                    assert forall|k: u64| #[trigger] pre.contains_key(k) implies self.handle_of(k)
                        == pre.handle_of(k) by {
                        let i = choose|i: int|
                            0 <= i < pre.entries@.len() && pre.entries@[i].key == k;
                        assert(pre.keys_spec()[i] == k);
                        assert(self.entries@[i].key == k);
                        lemma_unique_handle_of(*self, k, i);
                        lemma_unique_handle_of(pre, k, i);
                    }
                };
                assert(self.as_map() =~= pre.as_map().insert(key, handle));
            }
            Ok(())
        }
    }

    /// Look up the service registered under `key`.
    ///
    /// Returns the one handle for the key exactly when it is registered,
    /// and `NoSuchService` exactly when it is not.
    pub fn lookup(&self, key: u64) -> (r: Result<&H, RegistryError>)
        requires
            self.wf(),
        ensures
            r is Ok <==> self.contains_key(key),
            r matches Ok(h) ==> *h == self.as_map()[key],
            !self.contains_key(key) ==> r == Err::<&H, RegistryError>(RegistryError::NoSuchService),
    {
        let ghost pre = *self;
        let mut idx: usize = 0;
        while idx < self.entries.len() && self.entries[idx].key != key
            invariant
                *self == pre,
                0 <= idx <= self.entries@.len(),
                forall|j: int| 0 <= j < idx ==> self.entries@[j].key != key,
            decreases self.entries@.len() - idx,
        {
            idx = idx + 1;
        }
        if idx < self.entries.len() {
            proof {
                assert(self.keys_spec()[idx as int] == key);
                lemma_unique_handle_of(*self, key, idx as int);
            }
            Ok(&vstd::slice::slice_index_get(self.entries.as_slice(), idx).handle)
        } else {
            proof {
                assert(forall|i: int|
                    0 <= i < self.keys_spec().len() ==> self.keys_spec()[i] != key);
            }
            Err(RegistryError::NoSuchService)
        }
    }

    /// How many services are registered.
    pub fn len(&self) -> (r: usize)
        ensures
            r == self.keys_spec().len(),
    {
        self.entries.len()
    }
}

/// In a well-formed registry, the handle under a key is the handle of any
/// entry that carries the key.
proof fn lemma_unique_handle_of<H>(r: Registry<H>, key: u64, i: int)
    requires
        r.wf(),
        0 <= i < r.entries@.len(),
        r.entries@[i].key == key,
    ensures
        r.handle_of(key) == r.entries@[i].handle,
        r.contains_key(key),
{
    assert(r.keys_spec()[i] == key);
    let j = choose|j: int| 0 <= j < r.entries@.len() && r.entries@[j].key == key;
    assert(r.entries@[j].key == key);
    if i != j {
        if i < j {
            assert(r.entries@[i].key != r.entries@[j].key);
        } else {
            assert(r.entries@[j].key != r.entries@[i].key);
        }
    }
}

} // verus!
