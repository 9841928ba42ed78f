//! The stable structures that the task store keeps its state in.
//!
//! Everything in this module is trusted: Verus does not look inside
//! `ic_stable_structures`, so each function below states, without proof, what
//! the function it calls does. The rest of the crate is proved from these
//! statements alone.
//!
//! The types of `ic_stable_structures` have parameters bound by its traits
//! `Memory` and `Storable`, which Verus does not know, so they cannot be
//! declared to Verus. Each is held in a struct that Verus does not look into,
//! and what a map or a cell holds has a name: [`map_entries`], [`cell_value`].
//!
//! This crate opens no memory. Whoever starts the program opens the map and
//! the cell, each in a memory of its own, and hands them over in a
//! [`RecordMap`] and an [`IdCell`]. Two things that the statements take for
//! granted cannot be said in a contract, because Verus sees nothing of a
//! memory:
//!
//! - A stable structure assumes that the memory it was opened in is its own:
//!   nothing else writes to the memory of a structure that a store holds.
//! - Running out of stable memory stops the program, as running out of heap
//!   does.

use ic_stable_structures::memory_manager::VirtualMemory;
use ic_stable_structures::{Cell, DefaultMemoryImpl, StableBTreeMap};
use vstd::prelude::*;

verus! {

/// A `StableBTreeMap` from `u64` keys to byte strings.
#[verifier::external_body]
pub struct RecordMap {
    pub map: StableBTreeMap<u64, Vec<u8>, VirtualMemory<DefaultMemoryImpl>>,
}

/// A stable `Cell` that holds one `u64`.
#[verifier::external_body]
pub struct IdCell {
    pub cell: Cell<u64, VirtualMemory<DefaultMemoryImpl>>,
}

/// The entries that a record map holds.
pub uninterp spec fn map_entries(map: RecordMap) -> Map<u64, Seq<u8>>;

/// The number that a stable cell holds.
pub uninterp spec fn cell_value(cell: IdCell) -> u64;

/// Calls `StableBTreeMap::clear_new`. Claims that afterwards the map is
/// empty: `clear_new` sets the root to null and the length to zero, and frees
/// every node.
#[verifier::external_body]
pub(crate) fn map_clear(map: &mut RecordMap)
    ensures
        map_entries(*final(map)).dom() == Set::<u64>::empty(),
{
    map.map.clear_new()
}

/// Calls `StableBTreeMap::get`. Claims that the result is the value stored
/// under `key`, and `None` exactly when the map has no such key.
#[verifier::external_body]
pub(crate) fn map_get(map: &RecordMap, key: u64) -> (found: Option<Vec<u8>>)
    ensures
        match found {
            Some(bytes) => map_entries(*map).contains_key(key) && map_entries(*map)[key]
                == bytes@,
            None => !map_entries(*map).contains_key(key),
        },
{
    map.map.get(&key)
}

/// Calls `StableBTreeMap::insert`. Claims that afterwards the map holds
/// `value` under `key` and is otherwise unchanged, and that the result is the
/// value that `key` had before, if it had one.
///
/// The map writes the length of a value as a `u32`, so `value` is no longer
/// than that.
#[verifier::external_body]
pub(crate) fn map_insert(map: &mut RecordMap, key: u64, value: Vec<u8>) -> (previous: Option<
    Vec<u8>,
>)
    requires
        value@.len() <= u32::MAX,
    ensures
        map_entries(*final(map)) == map_entries(*old(map)).insert(key, value@),
        match previous {
            Some(bytes) => map_entries(*old(map)).contains_key(key) && map_entries(
                *old(map),
            )[key] == bytes@,
            None => !map_entries(*old(map)).contains_key(key),
        },
{
    map.map.insert(key, value)
}

/// Calls `StableBTreeMap::remove`. Claims that afterwards the map has no
/// entry under `key` and is otherwise unchanged, and that the result is the
/// value that `key` had before, if it had one.
#[verifier::external_body]
pub(crate) fn map_remove(map: &mut RecordMap, key: u64) -> (removed: Option<Vec<u8>>)
    ensures
        map_entries(*final(map)) == map_entries(*old(map)).remove(key),
        match removed {
            Some(bytes) => map_entries(*old(map)).contains_key(key) && map_entries(
                *old(map),
            )[key] == bytes@,
            None => !map_entries(*old(map)).contains_key(key),
        },
{
    map.map.remove(&key)
}

/// Whether `listing` holds the entries of `entries`, each once, by rising key.
pub open spec fn lists_entries(listing: Seq<(u64, Vec<u8>)>, entries: Map<u64, Seq<u8>>) -> bool {
    &&& forall|i: int, j: int|
        0 <= i < j < listing.len() ==> (#[trigger] listing[i]).0 < (#[trigger] listing[j]).0
    &&& forall|i: int|
        0 <= i < listing.len() ==> entries.contains_key((#[trigger] listing[i]).0)
            && entries[listing[i].0] == listing[i].1@
    &&& forall|key: u64| #[trigger]
        entries.contains_key(key) ==> exists|i: int|
            0 <= i < listing.len() && (#[trigger] listing[i]).0 == key
}

/// Calls `StableBTreeMap::iter` and collects every entry as a pair. Claims
/// what the iterator's documentation says: the entries come sorted by key, so
/// the keys strictly increase; each pair is an entry of the map; and every key
/// of the map is there.
#[verifier::external_body]
pub(crate) fn map_entries_in_order(map: &RecordMap) -> (listing: Vec<(u64, Vec<u8>)>)
    ensures
        lists_entries(listing@, map_entries(*map)),
{
    map.map.iter().map(|entry| entry.into_pair()).collect()
}

/// Calls `Cell::get`. Claims that the result is the number the cell holds.
#[verifier::external_body]
pub(crate) fn cell_get(cell: &IdCell) -> (value: u64)
    ensures
        value == cell_value(*cell),
{
    *cell.cell.get()
}

/// Calls `Cell::set`. Claims that afterwards the cell holds `value`, and that
/// the result is the number it held before.
#[verifier::external_body]
pub(crate) fn cell_set(cell: &mut IdCell, value: u64) -> (previous: u64)
    ensures
        cell_value(*final(cell)) == value,
        previous == cell_value(*old(cell)),
{
    cell.cell.set(value)
}

} // verus!
