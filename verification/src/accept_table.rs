//! The acceptor's slot table, kept in a `slab::Slab`.
//!
//! The table maps small integer keys to accept-slot entries; the key doubles
//! as the correlation token a completion callback carries. An entry is a
//! plain triple `(state tag, address-slot index, descriptor)`; see the
//! `acceptor` module for the encoding. What the slab holds is named by
//! [`table_entries`], a map from key to stored entry, and each operation the
//! acceptor uses is declared here against that name.

use vstd::prelude::*;

verus! {

/// An accept-slot entry as stored in the table: (state tag, address-slot
/// index, accepted descriptor).
pub type TableEntry = (usize, usize, i32);

/// The slot table itself.
pub type SlotTable = slab::Slab<TableEntry>;

#[verifier::external_type_specification]
#[verifier::external_body]
#[verifier::reject_recursive_types(T)]
pub struct ExSlab<T>(slab::Slab<T>);

/// The entries a slot table holds: a finite map from key to stored entry.
pub uninterp spec fn table_entries(s: SlotTable) -> Map<int, TableEntry>;

/// The entries of a table that stores nothing.
pub open spec fn empty_table() -> Map<int, TableEntry> {
    Map::<int, TableEntry>::empty()
}

/// Relies on `slab::Slab::with_capacity`: a freshly created slab stores
/// nothing.
#[verifier::external_body]
pub(crate) fn table_with_capacity(capacity: usize) -> (t: SlotTable)
    ensures
        table_entries(t) == empty_table(),
{
    slab::Slab::with_capacity(capacity)
}

/// Relies on `slab::Slab::insert`: the value is stored under a key that was
/// vacant, and no other entry changes.
#[verifier::external_body]
pub(crate) fn table_insert(s: &mut SlotTable, val: TableEntry) -> (key: usize)
    ensures
        !table_entries(*old(s)).dom().contains(key as int),
        table_entries(*final(s)) == table_entries(*old(s)).insert(key as int, val),
{
    s.insert(val)
}

/// Relies on `slab::Slab::get`: lookup of the entry stored under a key, or
/// nothing for a vacant key.
#[verifier::external_body]
pub(crate) fn table_get(s: &SlotTable, key: usize) -> (r: Option<TableEntry>)
    ensures
        r == (if table_entries(*s).dom().contains(key as int) {
            Some(table_entries(*s)[key as int])
        } else {
            None::<TableEntry>
        }),
{
    s.get(key).copied()
}

/// Relies on `slab::Slab::get_mut`: overwrite of an occupied entry in place;
/// the key must be occupied, or the lookup yields nothing and this call
/// panics.
#[verifier::external_body]
pub(crate) fn table_set(s: &mut SlotTable, key: usize, val: TableEntry)
    requires
        table_entries(*old(s)).dom().contains(key as int),
    ensures
        table_entries(*final(s)) == table_entries(*old(s)).insert(key as int, val),
{
    *s.get_mut(key).unwrap() = val;
}

/// Relies on `slab::Slab::remove`: takes the entry stored under the key out,
/// releasing the key; the key must be occupied, or `remove` panics.
#[verifier::external_body]
pub(crate) fn table_remove(s: &mut SlotTable, key: usize) -> (r: TableEntry)
    requires
        table_entries(*old(s)).dom().contains(key as int),
    ensures
        r == table_entries(*old(s))[key as int],
        table_entries(*final(s)) == table_entries(*old(s)).remove(key as int),
{
    s.remove(key)
}

/// Relies on `slab::Slab::len`: the number of stored entries.
#[verifier::external_body]
pub(crate) fn table_len(s: &SlotTable) -> (n: usize)
    ensures
        n == table_entries(*s).dom().len(),
{
    s.len()
}

} // verus!
