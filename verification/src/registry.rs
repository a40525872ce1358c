//! The type identity registry of one capability.
//!
//! The table is a `dashmap::DashMap`, so that readers on many threads can
//! share one `&Registry`. Writers need `&mut Registry`: registration is a
//! phase of its own, and once it is over the table is read only.

use dashmap::DashMap;
use std::collections::hash_map::RandomState;
use vstd::prelude::*;

verus! {

/// `dashmap::DashMap`, taken as an opaque type: what it holds is known only
/// through `table_entries`.
#[verifier::external_type_specification]
#[verifier::external_body]
#[verifier::reject_recursive_types(K)]
#[verifier::reject_recursive_types(V)]
#[verifier::reject_recursive_types(S)]
pub struct ExDashMap<K, V, S>(DashMap<K, V, S>);

/// The entries of a table: each key, as its characters, with the slot stored
/// under it.
pub uninterp spec fn table_entries(table: DashMap<String, u64, RandomState>) -> Map<Seq<char>, u64>;

/// `DashMap::new`: a table without entries.
#[verifier::external_body]
fn table_new() -> (created: DashMap<String, u64, RandomState>)
    ensures
        forall|key: Seq<char>| !table_entries(created).contains_key(key),
{
    DashMap::new()
}

/// `DashMap::insert`: binds `key` to `slot`, whether or not `key` was bound
/// before, and leaves every other entry as it was. The slot that `key` was
/// bound to before is dropped.
#[verifier::external_body]
fn table_insert(table: &mut DashMap<String, u64, RandomState>, key: String, slot: u64)
    ensures
        table_entries(*final(table)) == table_entries(*old(table)).insert(key@, slot),
{
    table.insert(key, slot);
}

/// `DashMap::get`, with the entry's value copied out: the slot bound to
/// `key`, or `None` where the table has no such key.
#[verifier::external_body]
fn table_get(table: &DashMap<String, u64, RandomState>, key: &str) -> (found: Option<u64>)
    ensures
        found == table_entries(*table).get(key@),
{
    table.get(key).map(|entry| *entry.value())
}

/// An opaque handle by which the codec's caller finds the routines that
/// build one concrete type behind its capability.
///
/// Two descriptors are the same when their slots are equal; the registry
/// never looks inside one.
#[derive(Clone, Copy, Debug, PartialEq, Eq, Structural)]
pub struct TypeDescriptor {
    pub slot: u64,
}

/// A mapping from type identifiers to type descriptors.
pub struct Registry {
    table: DashMap<String, u64, RandomState>,
}

impl View for Registry {
    type V = Map<Seq<char>, TypeDescriptor>;

    closed spec fn view(&self) -> Map<Seq<char>, TypeDescriptor> {
        table_entries(self.table).map_values(|slot: u64| TypeDescriptor { slot })
    }
}

impl Registry {
    /// A registry that knows no type.
    pub fn new() -> (registry: Registry)
        ensures
            registry@ == Map::<Seq<char>, TypeDescriptor>::empty(),
    {
        Registry { table: table_new() }
    }

    /// Registers `descriptor` under `identifier`.
    ///
    /// The last registration of an identifier wins: an identifier that is
    /// already known is rebound to `descriptor`, and no other identifier is
    /// touched.
    pub fn insert(&mut self, identifier: String, descriptor: TypeDescriptor)
        ensures
            final(self)@ == old(self)@.insert(identifier@, descriptor),
    {
        table_insert(&mut self.table, identifier, descriptor.slot);
    }

    /// The descriptor registered under `identifier`, or `None` where the
    /// identifier was never registered.
    pub fn get(&self, identifier: &str) -> (found: Option<TypeDescriptor>)
        ensures
            found == self@.get(identifier@),
    {
        match table_get(&self.table, identifier) {
            Some(slot) => Some(TypeDescriptor { slot }),
            None => None,
        }
    }
}

/// The capability whose registry this is: implemented for the trait object
/// type of each capability.
pub trait SerdeBoxRegistry {
    /// The one registry of the capability, complete before it is first read.
    fn get_registry() -> &'static Registry;
}

/// The map of a registry, or of a dispatch table, after `value` was
/// registered `n` times under `identifier`.
pub open spec fn registered<V>(entries: Map<Seq<char>, V>, identifier: Seq<char>, value: V, n: nat) -> Map<
    Seq<char>,
    V,
>
    decreases n,
{
    if n == 0 {
        entries
    } else {
        registered(entries, identifier, value, (n - 1) as nat).insert(identifier, value)
    }
}

/// Registering one pair again and again is registering it once: the map is
/// the same, `identifier` is found with `value`, and every other identifier
/// is found as before.
pub proof fn lemma_registration_is_idempotent<V>(
    entries: Map<Seq<char>, V>,
    identifier: Seq<char>,
    value: V,
    n: nat,
)
    requires
        n >= 1,
    ensures
        registered(entries, identifier, value, n) == entries.insert(identifier, value),
        registered(entries, identifier, value, n).get(identifier) == Some(value),
        forall|other: Seq<char>|
            other != identifier ==> registered(entries, identifier, value, n).get(other)
                == entries.get(other),
    decreases n,
{
    if n > 1 {
        lemma_registration_is_idempotent(entries, identifier, value, (n - 1) as nat);
    } else {
        assert(registered(entries, identifier, value, 0) == entries);
    }
}

/// Registrations under different identifiers commute: their order does not
/// matter.
pub proof fn lemma_registrations_commute<V>(
    entries: Map<Seq<char>, V>,
    first: Seq<char>,
    first_value: V,
    second: Seq<char>,
    second_value: V,
)
    requires
        first != second,
    ensures
        entries.insert(first, first_value).insert(second, second_value) == entries.insert(
            second,
            second_value,
        ).insert(first, first_value),
{
}

} // verus!
