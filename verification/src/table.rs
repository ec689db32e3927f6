//! The agent table: a concurrent map from agent id to agent state.
//!
//! The map is `dashmap::DashMap`. What it holds is named by
//! [`table_entries`]; the functions below are the only way in which this
//! crate reads or changes it, and each takes the guards that the map hands
//! out only for the length of one call.

use crate::agents::agent::Player;
use dashmap::DashMap;
use std::collections::hash_map::RandomState;
use vstd::prelude::*;

verus! {

/// `dashmap::DashMap`, carried as it is: what it holds is told by
/// [`table_entries`] alone.
#[verifier::external_type_specification]
#[verifier::external_body]
#[verifier::reject_recursive_types(K)]
#[verifier::reject_recursive_types(V)]
#[verifier::reject_recursive_types(S)]
pub struct ExDashMap<K, V, S>(DashMap<K, V, S>);

/// The entries that a table holds: under each key the value that
/// `DashMap::get` would find there.
pub uninterp spec fn table_entries(table: DashMap<usize, Player, RandomState>) -> Map<usize, Player>;

/// The table without entries.
pub open spec fn no_entries() -> Map<usize, Player> {
    Map::empty()
}

/// Whether `walk` lists every entry of `entries` exactly once.
pub open spec fn is_walk(walk: Seq<(usize, Player)>, entries: Map<usize, Player>) -> bool {
    &&& forall|i: int| 0 <= i < walk.len() ==> entries.contains_pair((#[trigger] walk[i]).0, walk[i].1)
    &&& forall|i: int, j: int|
        0 <= i < j < walk.len() ==> (#[trigger] walk[i]).0 != (#[trigger] walk[j]).0
    &&& forall|k: usize| #[trigger]
        entries.contains_key(k) ==> exists|i: int| 0 <= i < walk.len() && (#[trigger] walk[i]).0 == k
}

/// Calls `DashMap::with_hasher` with a fresh hasher of std: a map of
/// capacity zero, which holds nothing.
#[verifier::external_body]
pub(crate) fn table_new() -> (table: DashMap<usize, Player, RandomState>)
    ensures
        table_entries(table) == no_entries(),
{
    DashMap::with_hasher(RandomState::new())
}

/// Calls `DashMap::insert`: the value is stored under the key, in place of
/// the one that was there, which is handed back.
#[verifier::external_body]
pub(crate) fn table_insert(table: &mut DashMap<usize, Player, RandomState>, key: usize, value: Player) -> (previous:
    Option<Player>)
    ensures
        table_entries(*final(table)) == table_entries(*old(table)).insert(key, value),
        previous == (if table_entries(*old(table)).contains_key(key) {
            Some(table_entries(*old(table))[key])
        } else {
            None
        }),
{
    table.insert(key, value)
}

/// Calls `DashMap::get` and copies the value out of the guard: the value
/// stored under the key, if there is one.
#[verifier::external_body]
pub(crate) fn table_get(table: &DashMap<usize, Player, RandomState>, key: usize) -> (found: Option<Player>)
    ensures
        found == (if table_entries(*table).contains_key(key) {
            Some(table_entries(*table)[key])
        } else {
            None
        }),
{
    table.get(&key).map(|entry| *entry.value())
}

/// Calls `DashMap::len`: the number of entries.
#[verifier::external_body]
pub(crate) fn table_len(table: &DashMap<usize, Player, RandomState>) -> (n: usize)
    ensures
        n == table_entries(*table).dom().len(),
{
    table.len()
}

/// Calls `DashMap::clear`: no entry is left.
#[verifier::external_body]
pub(crate) fn table_clear(table: &mut DashMap<usize, Player, RandomState>)
    ensures
        table_entries(*final(table)) == no_entries(),
{
    table.clear()
}

/// Calls `DashMap::iter` and copies each key and value out of its guard.
/// The walk visits every entry once, shard by shard, in an order that
/// nothing here fixes.
#[verifier::external_body]
pub(crate) fn table_walk(table: &DashMap<usize, Player, RandomState>) -> (walk: Vec<(usize, Player)>)
    ensures
        is_walk(walk@, table_entries(*table)),
{
    table.iter().map(|entry| (*entry.key(), *entry.value())).collect()
}

} // verus!
