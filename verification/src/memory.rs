//! The durable byte maps that the ledgers are kept in, and what is taken on
//! trust about them.
//!
//! The maps are `StableBTreeMap`s of the crate `ic-stable-structures`, each in
//! a memory of its own that a `MemoryManager` of that crate gives out of a
//! range of pages of the process's stable memory. Verus cannot read either
//! type: both are declared with bounds by the crate's own traits, which Verus
//! does not take. So both are held behind opaque structs and reached through
//! the few functions below, whose contracts are believed, not proved.

use vstd::prelude::*;
use ic_stable_structures::memory_manager::{MemoryId, MemoryManager, VirtualMemory};
use ic_stable_structures::storable::Blob;
use ic_stable_structures::{DefaultMemoryImpl, RestrictedMemory, StableBTreeMap};

verus! {

/// The longest key that a durable map takes, in bytes.
pub const MAX_KEY_BYTES: usize = 32;

/// The longest value that a durable map takes, in bytes.
pub const MAX_VALUE_BYTES: usize = 65;

/// The number of memories that a storage can give out; their indices start at 0.
pub const MEMORY_COUNT: u8 = 255;

/// The number of pages that stable memory can have at most; a page has
/// 65536 bytes.
pub const MAX_PAGES: u64 = 281474976710655;

/// The number of pages that the manager of a storage keeps for itself, at
/// the start of the range.
pub const MANAGER_PAGES: u64 = 1;

/// The number of pages that a memory grows by: the manager gives pages out
/// in buckets of this size.
pub const BUCKET_PAGES: u64 = 128;

/// The fewest pages that a storage is opened on: the manager's own, and one
/// bucket for each memory that it can give out, so that every map finds
/// room to be set up in.
pub const MIN_STORAGE_PAGES: u64 = MANAGER_PAGES + BUCKET_PAGES * 255;

/// A range of pages of the process's stable memory, divided into numbered
/// memories.
#[verifier::external_body]
pub struct StableStorage {
    manager: MemoryManager<RestrictedMemory<DefaultMemoryImpl>>,
}

/// A durable map from byte strings to byte strings.
#[verifier::external_body]
pub struct DurableMap {
    tree: StableBTreeMap<Blob<32>, Blob<65>, VirtualMemory<RestrictedMemory<DefaultMemoryImpl>>>,
}

/// The indices of the memories that a storage has given out since it was opened.
pub uninterp spec fn storage_given_out(storage: StableStorage) -> Set<u8>;

/// The entries that a durable map holds.
pub uninterp spec fn durable_entries(map: DurableMap) -> Map<Seq<u8>, Seq<u8>>;

/// `RestrictedMemory::new` on the default memory, then `MemoryManager::init`
/// on what it returns: the manager of the pages from `first_page` up to, not
/// including, `end_page`. Nothing has been given out by the new value.
/// `RestrictedMemory::new` panics on an end beyond `MAX_PAGES`. The manager
/// writes its own state into the first page of the range and gives the rest
/// out in buckets of 128 pages; a range that cannot grow by what is asked
/// makes the crate panic. So the range has room for the manager's page and
/// for one bucket for each of the 255 memories. The pages are to belong to
/// this storage alone: whoever else writes to them, a second storage over
/// them included, overwrites the maps. Stable memory itself can run out, as
/// any memory can: then the outside crate stops the process, here and in
/// the functions below.
#[verifier::external_body]
fn storage_open(first_page: u64, end_page: u64) -> (storage: StableStorage)
    requires
        first_page <= end_page <= MAX_PAGES,
        end_page - first_page >= MIN_STORAGE_PAGES,
    ensures
        storage_given_out(storage) == Set::<u8>::empty(),
{
    let pages = RestrictedMemory::new(DefaultMemoryImpl::default(), first_page..end_page);
    StableStorage { manager: MemoryManager::init(pages) }
}

/// `MemoryManager::get`, then `StableBTreeMap::init` on the memory it returns:
/// the map that the memory holds, or an empty one where it holds none. What
/// the map holds depends on what was stored before, so nothing is said of it.
/// The index 255 is left out because `MemoryId::new` panics on it, an index
/// given out before because two maps in one memory would overwrite each other.
/// An empty map is set up in the first bucket of its memory, which a storage
/// has room for by how it is opened, unless maps stored before have grown
/// into all of the range. A memory that holds a map of narrower keys or
/// values makes the outside crate stop the process. Both depend on what is
/// stored, not on the arguments.
#[verifier::external_body]
fn storage_map(storage: &mut StableStorage, index: u8) -> (map: DurableMap)
    requires
        index < MEMORY_COUNT,
        !storage_given_out(*old(storage)).contains(index),
    ensures
        storage_given_out(*final(storage)) == storage_given_out(*old(storage)).insert(index),
{
    DurableMap { tree: StableBTreeMap::init(storage.manager.get(MemoryId::new(index))) }
}

/// `StableBTreeMap::get`: the value stored under `key`, if there is one. The
/// key is converted to the map's key type, which panics beyond 32 bytes.
#[verifier::external_body]
fn map_get(map: &DurableMap, key: &[u8]) -> (value: Option<Vec<u8>>)
    requires
        key@.len() <= MAX_KEY_BYTES,
    ensures
        value is Some <==> durable_entries(*map).contains_key(key@),
        value matches Some(bytes) ==> bytes@ == durable_entries(*map)[key@],
{
    match map.tree.get(&Blob::try_from(key).unwrap()) {
        Some(blob) => Some(blob.as_slice().to_vec()),
        None => None,
    }
}

/// `StableBTreeMap::insert`: stores `value` under `key`, in place of what was
/// stored there, and returns what was stored there. Key and value are
/// converted to the map's types, which panics beyond 32 and 65 bytes. All
/// other entries stay as they were. A map that grows takes further buckets
/// from the range of its storage; where the range is used up, the outside
/// crate stops the process.
#[verifier::external_body]
fn map_insert(map: &mut DurableMap, key: &[u8], value: &[u8]) -> (previous: Option<Vec<u8>>)
    requires
        key@.len() <= MAX_KEY_BYTES,
        value@.len() <= MAX_VALUE_BYTES,
    ensures
        durable_entries(*final(map)) == durable_entries(*old(map)).insert(key@, value@),
        previous is Some <==> durable_entries(*old(map)).contains_key(key@),
        previous matches Some(bytes) ==> bytes@ == durable_entries(*old(map))[key@],
{
    match map.tree.insert(Blob::try_from(key).unwrap(), Blob::try_from(value).unwrap()) {
        Some(blob) => Some(blob.as_slice().to_vec()),
        None => None,
    }
}

impl StableStorage {
    /// The indices of the memories given out so far.
    pub open spec fn given_out(&self) -> Set<u8> {
        storage_given_out(*self)
    }

    /// Whether a storage can be opened on the pages from `first_page` up to,
    /// not including, `end_page`: they are pages of stable memory, and at
    /// least `MIN_STORAGE_PAGES` in number.
    pub open spec fn is_range(first_page: u64, end_page: u64) -> bool {
        &&& first_page <= end_page <= MAX_PAGES
        &&& end_page - first_page >= MIN_STORAGE_PAGES
    }

    /// Opens the storage kept in the pages of stable memory from
    /// `first_page` up to, not including, `end_page`: `None` where a storage
    /// cannot be opened on them. The pages are to belong to this storage
    /// alone.
    pub fn open(first_page: u64, end_page: u64) -> (storage: Option<StableStorage>)
        ensures
            storage is Some <==> StableStorage::is_range(first_page, end_page),
            storage matches Some(opened) ==> opened.given_out() == Set::<u8>::empty(),
    {
        if first_page <= end_page && end_page <= MAX_PAGES && end_page - first_page
            >= MIN_STORAGE_PAGES {
            Some(storage_open(first_page, end_page))
        } else {
            None
        }
    }

    /// The durable map kept in the memory numbered `index`: `None` where the
    /// index is out of range.
    pub fn map(&mut self, index: u8) -> (map: Option<DurableMap>)
        requires
            !old(self).given_out().contains(index),
        ensures
            map is Some <==> index < MEMORY_COUNT,
            map is Some ==> final(self).given_out() == old(self).given_out().insert(index),
            map is None ==> *final(self) == *old(self),
    {
        if index < MEMORY_COUNT {
            Some(storage_map(self, index))
        } else {
            None
        }
    }
}

impl DurableMap {
    /// The entries of the map.
    pub open spec fn view(&self) -> Map<Seq<u8>, Seq<u8>> {
        durable_entries(*self)
    }

    /// The value stored under `key`. No key of more than 32 bytes is stored.
    pub fn get(&self, key: &[u8]) -> (value: Option<Vec<u8>>)
        ensures
            key@.len() <= MAX_KEY_BYTES ==> (value is Some <==> self@.contains_key(key@)),
            key@.len() > MAX_KEY_BYTES ==> value is None,
            value matches Some(bytes) ==> bytes@ == self@[key@],
    {
        if key.len() <= MAX_KEY_BYTES {
            map_get(self, key)
        } else {
            None
        }
    }

    /// Stores `value` under `key` and returns what was stored there before.
    /// A key of more than 32 bytes or a value of more than 65 is refused, and
    /// the map stays as it was. The process stops where the pages of the
    /// storage are used up.
    pub fn insert(&mut self, key: &[u8], value: &[u8]) -> (outcome: Result<Option<Vec<u8>>, ()>)
        ensures
            outcome is Ok <==> key@.len() <= MAX_KEY_BYTES && value@.len() <= MAX_VALUE_BYTES,
            outcome is Err ==> *final(self) == *old(self),
            outcome matches Ok(previous) ==> {
                &&& final(self)@ == old(self)@.insert(key@, value@)
                &&& previous is Some <==> old(self)@.contains_key(key@)
                &&& previous matches Some(bytes) ==> bytes@ == old(self)@[key@]
            },
    {
        if key.len() <= MAX_KEY_BYTES && value.len() <= MAX_VALUE_BYTES {
            Ok(map_insert(self, key, value))
        } else {
            Err(())
        }
    }
}

} // verus!
