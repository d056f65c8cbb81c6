//! The table from syndromes to error patterns, kept in a hash map with
//! the FNV hasher.

use fnv::FnvHashMap;
use vstd::prelude::*;

verus! {

/// `fnv::FnvHasher`, the hasher of the map: nothing is said of it.
#[verifier::external_type_specification]
#[verifier::external_body]
pub struct ExFnvHasher(fnv::FnvHasher);

/// `BuildHasherDefault`, which makes the hashers of the map: nothing is
/// said of it.
#[verifier::external_type_specification]
#[verifier::external_body]
#[verifier::reject_recursive_types(H)]
pub struct ExBuildHasherDefault<H>(core::hash::BuildHasherDefault<H>);

/// The table without entries.
pub open spec fn no_entries() -> Map<u64, u64> {
    Map::empty()
}

/// `FnvHashMap::with_capacity_and_hasher` with the default FNV hasher:
/// the map that it returns holds no entry.
#[verifier::external_body]
fn fnv_with_capacity(capacity: usize) -> (m: FnvHashMap<u64, u64>)
    ensures
        m@ == no_entries(),
{
    FnvHashMap::with_capacity_and_hasher(capacity, fnv::FnvBuildHasher::default())
}

/// `HashMap::insert` on a map with the FNV hasher: afterwards the key
/// maps to the value, and every other key is as before.
#[verifier::external_body]
fn fnv_insert(m: &mut FnvHashMap<u64, u64>, key: u64, value: u64)
    ensures
        final(m)@ == old(m)@.insert(key, value),
{
    m.insert(key, value);
}

/// `HashMap::get` on a map with the FNV hasher: the value that the key
/// maps to, if it maps to one.
#[verifier::external_body]
fn fnv_get(m: &FnvHashMap<u64, u64>, key: u64) -> (r: Option<u64>)
    ensures
        r == (if m@.contains_key(key) {
            Some(m@[key])
        } else {
            None
        }),
{
    match m.get(&key) {
        Some(value) => Some(*value),
        None => None,
    }
}

/// Whether the table has finitely many entries, and `n` of them.
pub open spec fn counts(table: Map<u64, u64>, n: usize) -> bool {
    table.dom().finite() && table.len() == n
}

/// `HashMap::len` on a map with the FNV hasher: the number of entries
/// of the map, which are finitely many.
#[verifier::external_body]
fn fnv_len(m: &FnvHashMap<u64, u64>) -> (n: usize)
    ensures
        counts(m@, n),
{
    m.len()
}

/// A table from syndromes to packed error patterns. Its view is the map
/// that it holds.
pub struct SyndromeMap {
    map: FnvHashMap<u64, u64>,
}

impl View for SyndromeMap {
    type V = Map<u64, u64>;

    closed spec fn view(&self) -> Map<u64, u64> {
        self.map@
    }
}

impl SyndromeMap {
    /// The empty table, with room for `capacity` entries.
    pub fn with_capacity(capacity: usize) -> (t: SyndromeMap)
        ensures
            t@ == no_entries(),
    {
        SyndromeMap { map: fnv_with_capacity(capacity) }
    }

    /// Enters the error pattern of a syndrome.
    pub fn insert(&mut self, syndrome: u64, pattern: u64)
        ensures
            final(self)@ == old(self)@.insert(syndrome, pattern),
    {
        fnv_insert(&mut self.map, syndrome, pattern);
    }

    /// The number of entries.
    pub fn len(&self) -> (n: usize)
        ensures
            n == self@.len(),
            self@.dom().finite(),
    {
        fnv_len(&self.map)
    }

    /// The error pattern of a syndrome, if the table has one for it.
    pub fn get(&self, syndrome: u64) -> (r: Option<u64>)
        ensures
            r == (if self@.contains_key(syndrome) {
                Some(self@[syndrome])
            } else {
                None
            }),
    {
        fnv_get(&self.map, syndrome)
    }
}

} // verus!
