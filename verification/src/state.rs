//! The stable map that holds the encoded records of every owner.

use vstd::prelude::*;
use candid::Principal;
use ic_stable_structures::memory_manager::{MemoryId, MemoryManager, VirtualMemory};
use ic_stable_structures::{DefaultMemoryImpl, StableBTreeMap};
use crate::order::is_sorted_listing;
use crate::storable::{decoded, StoredPrincipal, MAX_PRINCIPAL_LEN};
use crate::user::UserDataView;

verus! {

/// The memory of the memory manager in which the user map lives.
pub const USER_MAP_MEMORY_ID: u8 = 0;

/// The stable B-tree map from an owner's principal to the owner's encoded
/// records: a `StableBTreeMap` of `ic_stable_structures`, keyed by
/// `candid::Principal`, in a virtual memory of the default stable memory. The
/// verifier does not look inside; what it holds is [`stored_entries`].
#[verifier::external_body]
pub struct UserMap {
    inner: StableBTreeMap<Principal, Vec<u8>, VirtualMemory<DefaultMemoryImpl>>,
}

/// What a [`UserMap`] holds: for each principal in it, by its bytes, the
/// bytes stored under it.
pub uninterp spec fn stored_entries(map: UserMap) -> Map<Seq<u8>, Seq<u8>>;

/// The memory in which a [`UserMap`] keeps its entries: the id, among the
/// virtual memories of the memory manager, that the map was opened with.
pub uninterp spec fn memory_id_of(map: UserMap) -> u8;

/// `MemoryManager::init` on the default memory, `MemoryManager::get` and
/// `StableBTreeMap::init`, from `ic_stable_structures`. Trusted: the map
/// that comes back lives in the virtual memory with the id given. Nothing is
/// claimed of its entries: it is the map found in that memory, or an empty
/// one where the memory holds none. The calls panic where the memory holds a
/// layout of a version they do not know.
#[verifier::external_body]
fn open_user_map(id: u8) -> (map: UserMap)
    requires
        id < 255,
    ensures
        memory_id_of(map) == id,
{
    let manager = MemoryManager::init(DefaultMemoryImpl::default());
    UserMap { inner: StableBTreeMap::init(manager.get(MemoryId::new(id))) }
}

/// `StableBTreeMap::get`, from `ic_stable_structures`, with the key made by
/// `Principal::from_slice`. Trusted: it returns the bytes stored under the
/// principal, or `None` where the map has no such key.
#[verifier::external_body]
fn map_get(map: &UserMap, key: &[u8]) -> (value: Option<Vec<u8>>)
    requires
        key@.len() <= MAX_PRINCIPAL_LEN,
    ensures
        match value {
            Some(bytes) => stored_entries(*map).contains_key(key@) && stored_entries(*map)[key@]
                == bytes@,
            None => !stored_entries(*map).contains_key(key@),
        },
{
    map.inner.get(&Principal::from_slice(key))
}

/// `StableBTreeMap::insert`, from `ic_stable_structures`, with the key made
/// by `Principal::from_slice`. Trusted: afterwards the map holds the value
/// under the key and is otherwise unchanged, it stays in its memory, and the
/// value that the key had before is returned. The call panics where stable
/// memory cannot grow.
#[verifier::external_body]
fn map_insert(map: &mut UserMap, key: &[u8], value: Vec<u8>) -> (previous: Option<Vec<u8>>)
    requires
        key@.len() <= MAX_PRINCIPAL_LEN,
    ensures
        stored_entries(*final(map)) == stored_entries(*old(map)).insert(key@, value@),
        memory_id_of(*final(map)) == memory_id_of(*old(map)),
        match previous {
            Some(bytes) => stored_entries(*old(map)).contains_key(key@) && stored_entries(
                *old(map),
            )[key@] == bytes@,
            None => !stored_entries(*old(map)).contains_key(key@),
        },
{
    map.inner.insert(Principal::from_slice(key), value)
}

/// `StableBTreeMap::iter`, from `ic_stable_structures`, each key turned into
/// its bytes by `Principal::as_slice`. Trusted: the iterator yields every
/// entry of the map once, sorted by key, and principals are ordered by length
/// first and then byte by byte.
#[verifier::external_body]
fn map_entries(map: &UserMap) -> (listing: Vec<(Vec<u8>, Vec<u8>)>)
    ensures
        is_sorted_listing(stored_entries(*map), listing.deep_view()),
{
    map.inner.iter().map(|(key, value)| (key.as_slice().to_vec(), value)).collect()
}

/// The records that stored bytes stand for; no records where they stand for
/// none.
pub open spec fn records_in(bytes: Seq<u8>) -> Seq<UserDataView> {
    match decoded(bytes) {
        Some(records) => records,
        None => Seq::empty(),
    }
}

/// The store: the records of every owner, kept in stable memory.
pub struct State {
    user_data: UserMap,
}

impl View for State {
    type V = Map<Seq<u8>, Seq<UserDataView>>;

    /// The records of each owner that has an entry. An entry whose bytes
    /// stand for no records counts as one without records; see
    /// [`State::readable`].
    open spec fn view(&self) -> Map<Seq<u8>, Seq<UserDataView>> {
        Map::new(
            |owner: Seq<u8>| self.entries().contains_key(owner),
            |owner: Seq<u8>| records_in(self.entries()[owner]),
        )
    }
}

impl State {
    /// The bytes stored for each owner.
    pub closed spec fn entries(&self) -> Map<Seq<u8>, Seq<u8>> {
        stored_entries(self.user_data)
    }

    /// The id of the virtual memory in which the store keeps its entries.
    pub closed spec fn memory_id(&self) -> u8 {
        memory_id_of(self.user_data)
    }

    /// The owner has no entry, or one whose bytes stand for records.
    pub open spec fn readable(&self, owner: Seq<u8>) -> bool {
        self.entries().contains_key(owner) ==> decoded(self.entries()[owner]).is_some()
    }

    /// The bytes of every entry stand for records.
    pub open spec fn intact(&self) -> bool {
        forall|owner: Seq<u8>| self.readable(owner)
    }

    /// Opens the store in the memory [`USER_MAP_MEMORY_ID`] of the default
    /// stable memory. It holds what that memory held: nothing where the
    /// memory is new. A canister opens its store once: two stores opened on
    /// one memory would write over each other.
    pub fn new() -> (state: State)
        ensures
            state.memory_id() == USER_MAP_MEMORY_ID,
    {
        State { user_data: open_user_map(USER_MAP_MEMORY_ID) }
    }

    /// The bytes stored for an owner, or `None` for an owner without an
    /// entry.
    pub fn stored_bytes(&self, owner: &StoredPrincipal) -> (bytes: Option<Vec<u8>>)
        ensures
            match bytes {
                Some(found) => self.entries().contains_key(owner@) && self.entries()[owner@]
                    == found@,
                None => !self.entries().contains_key(owner@),
            },
    {
        map_get(&self.user_data, owner.as_slice())
    }

    /// Stores bytes for an owner in place of what the owner had, and returns
    /// what the owner had. Every other entry stays as it was, and the store
    /// stays in its memory.
    pub fn store_bytes(&mut self, owner: &StoredPrincipal, bytes: Vec<u8>) -> (previous: Option<
        Vec<u8>,
    >)
        ensures
            final(self).entries() == old(self).entries().insert(owner@, bytes@),
            final(self).memory_id() == old(self).memory_id(),
            match previous {
                Some(found) => old(self).entries().contains_key(owner@) && old(self).entries()[owner@]
                    == found@,
                None => !old(self).entries().contains_key(owner@),
            },
    {
        map_insert(&mut self.user_data, owner.as_slice(), bytes)
    }

    /// Every entry, as the owner's bytes and the stored bytes, in the order
    /// of the owners' principals.
    pub fn stored_listing(&self) -> (listing: Vec<(Vec<u8>, Vec<u8>)>)
        ensures
            is_sorted_listing(self.entries(), listing.deep_view()),
    {
        map_entries(&self.user_data)
    }
}

} // verus!
