//! The dispatch table of one capability.
//!
//! A descriptor is a slot in a table of routines: what the caller needs to
//! build one concrete type behind the capability. The table keeps the
//! registry and the routines together, so that every descriptor in the
//! registry has its routine.

use crate::codec::identifier;
use crate::codec::identifier_outcome;
use crate::codec::DecodeError;
use crate::codec::Tagged;
use crate::registry::Registry;
use crate::registry::TypeDescriptor;
use vstd::prelude::*;

verus! {

/// The registry of a capability, with the routine of each registered type.
/// `R` is the caller's type of routine.
///
/// The view of a table is the map from each registered identifier to its
/// routine.
pub struct DispatchTable<R> {
    registry: Registry,
    routines: Vec<R>,
}

impl<R> View for DispatchTable<R> {
    type V = Map<Seq<char>, R>;

    closed spec fn view(&self) -> Map<Seq<char>, R> {
        Map::new(
            |name: Seq<char>| self.registry@.contains_key(name),
            |name: Seq<char>| self.routines@[self.registry@[name].slot as int],
        )
    }
}

/// The map of a dispatch table after the pairs of `pending` were registered,
/// one after the other.
pub open spec fn registered_all<R>(entries: Map<Seq<char>, R>, pending: Seq<(String, R)>) -> Map<
    Seq<char>,
    R,
>
    decreases pending.len(),
{
    if pending.len() == 0 {
        entries
    } else {
        registered_all(entries, pending.drop_last()).insert(pending.last().0@, pending.last().1)
    }
}

/// The registry of a dispatch table after the pairs of `pending` were
/// registered, one after the other, the first of them in the slot `slots`.
pub open spec fn descriptors_after<R>(
    entries: Map<Seq<char>, TypeDescriptor>,
    slots: nat,
    pending: Seq<(String, R)>,
) -> Map<Seq<char>, TypeDescriptor>
    decreases pending.len(),
{
    if pending.len() == 0 {
        entries
    } else {
        descriptors_after(entries, slots, pending.drop_last()).insert(
            pending.last().0@,
            TypeDescriptor { slot: (slots + pending.len() - 1) as u64 },
        )
    }
}

impl<R> DispatchTable<R> {
    /// Every descriptor in the registry is the slot of a routine.
    #[verifier::type_invariant]
    spec fn slots_are_filled(self) -> bool {
        forall|name: Seq<char>| #[trigger]
            self.registry@.contains_key(name) ==> self.registry@[name].slot < self.routines@.len()
    }

    /// The registry, as a map from identifiers to descriptors.
    pub closed spec fn entries(self) -> Map<Seq<char>, TypeDescriptor> {
        self.registry@
    }

    /// The number of slots that were given out.
    pub closed spec fn slots(self) -> nat {
        self.routines@.len()
    }

    /// A table without registrations.
    pub fn new() -> (table: DispatchTable<R>)
        ensures
            table@ == Map::<Seq<char>, R>::empty(),
            table.entries() == Map::<Seq<char>, TypeDescriptor>::empty(),
            table.slots() == 0,
    {
        DispatchTable { registry: Registry::new(), routines: Vec::new() }
    }

    /// Registers a concrete type: `routine` gets the next free slot, and
    /// `identifier` is bound to the descriptor of that slot.
    ///
    /// The last registration of an identifier wins. The routine of an
    /// earlier one stays in its slot, out of use.
    pub fn register(self, identifier: String, routine: R) -> (table: DispatchTable<R>)
        ensures
            table@ == self@.insert(identifier@, routine),
            table.entries() == self.entries().insert(
                identifier@,
                (TypeDescriptor { slot: self.slots() as u64 }),
            ),
            table.slots() == self.slots() + 1,
    {
        proof {
            use_type_invariant(&self);
        }
        let DispatchTable { mut registry, mut routines } = self;
        let slot: u64 = routines.len() as u64;
        routines.push(routine);
        registry.insert(identifier, TypeDescriptor { slot });
        DispatchTable { registry, routines }
    }

    /// Registers the concrete types of `pending`, in their order: each as
    /// [`DispatchTable::register`] does it.
    pub fn register_all(self, pending: Vec<(String, R)>) -> (table: DispatchTable<R>)
        ensures
            table@ == registered_all(self@, pending@),
            table.entries() == descriptors_after(self.entries(), self.slots(), pending@),
            table.slots() == self.slots() + pending@.len(),
    {
        let ghost all = pending@;
        let ghost start = self;
        let mut table = self;
        for pair in it: pending
            invariant
                it.seq() == all,
                table@ == registered_all(start@, all.take(it.index() as int)),
                table.entries() == descriptors_after(
                    start.entries(),
                    start.slots(),
                    all.take(it.index() as int),
                ),
                table.slots() == start.slots() + it.index(),
        {
            proof {
                let n = it.index() as int;
                assert(all.take(n + 1).drop_last() =~= all.take(n));
            }
            let (identifier, routine) = pair;
            table = table.register(identifier, routine);
        }
        assert(all.take(all.len() as int) =~= all);
        table
    }

    /// The registry of the capability. It knows exactly the identifiers that
    /// have a routine.
    pub fn registry(&self) -> (registry: &Registry)
        ensures
            registry@ == self.entries(),
            registry@.dom() == self@.dom(),
    {
        &self.registry
    }

    /// Takes the first element of an envelope, read as a string, and finds
    /// the routine with which the payload is to be decoded.
    ///
    /// Fails exactly where [`identifier`] fails on the table's registry: a
    /// registered identifier always has its routine.
    pub fn resolve<E>(&self, read: Result<Option<String>, E>) -> (next: Result<
        (Tagged, &R),
        DecodeError<E>,
    >)
        ensures
            match identifier_outcome(self.entries(), read) {
                Ok(descriptor) => {
                    &&& next matches Ok((tagged, routine))
                    &&& read matches Ok(Some(name))
                    &&& tagged@ == descriptor
                    &&& self@.contains_key(name@)
                    &&& *routine == self@[name@]
                },
                Err(error) => next matches Err(e) && e == error,
            },
    {
        proof {
            use_type_invariant(self);
        }
        match identifier(&self.registry, read) {
            Ok(tagged) => {
                let slot: u64 = tagged.descriptor().slot;
                assert(slot < self.routines.len());
                let routine = &self.routines[slot as usize];
                Ok((tagged, routine))
            },
            Err(error) => Err(error),
        }
    }
}

} // verus!
