//! A table of pointers to known "markers."

use crate::types::array::PStackArrUnchecked;
use vstd::prelude::*;

verus! {

/// A name and the address that it stands for.
pub type MarkerEntry = (&'static str, usize);

/// The number of markers that a debug build keeps. A release build keeps
/// none: its table has no slot, and every registration leaves it empty.
pub const NUM_MARKERS: usize = 16;

/// `entries` after one more registration in a table of `capacity` slots: a full
/// table stays as it is.
pub open spec fn registered(entries: Seq<MarkerEntry>, capacity: int, entry: MarkerEntry) -> Seq<
    MarkerEntry,
> {
    if entries.len() >= capacity {
        entries
    } else {
        entries.push(entry)
    }
}

/// `entries` after the registrations `more`, one after the other.
pub open spec fn registered_all(
    entries: Seq<MarkerEntry>,
    capacity: int,
    more: Seq<MarkerEntry>,
) -> Seq<MarkerEntry>
    decreases more.len(),
{
    if more.len() == 0 {
        entries
    } else {
        registered(registered_all(entries, capacity, more.drop_last()), capacity, more.last())
    }
}

/// A bounded table of markers, in the order in which they were registered.
pub struct MarkerRegistry<const CAP: usize> {
    entries: PStackArrUnchecked<MarkerEntry, CAP>,
}

impl<const CAP: usize> View for MarkerRegistry<CAP> {
    type V = Seq<MarkerEntry>;

    closed spec fn view(&self) -> Seq<MarkerEntry> {
        self.entries@
    }
}

impl<const CAP: usize> MarkerRegistry<CAP> {
    /// A table without markers.
    pub fn new() -> (made: Self)
        ensures
            made@ == Seq::<MarkerEntry>::empty(),
    {
        Self { entries: PStackArrUnchecked::new() }
    }

    /// The number of markers in the table.
    pub fn len(&self) -> (n: usize)
        ensures
            n == self@.len(),
            n <= CAP,
    {
        self.entries.len()
    }

    /// Appends the marker, unless the table is full: then nothing changes.
    pub fn register(&mut self, name: &'static str, address: usize)
        ensures
            final(self)@ == registered(old(self)@, CAP as int, (name, address)),
    {
        if self.entries.len() >= CAP {
            return ;
        }
        self.entries.push((name, address));
    }

    /// The markers with their indices, in the order in which they were registered.
    pub fn list(&self) -> (listed: Vec<(usize, &'static str)>)
        ensures
            listed@.len() == self@.len(),
            forall|i: int| 0 <= i < self@.len() ==> listed@[i] == (i as usize, self@[i].0),
    {
        let slots = self.entries.as_slice();
        let mut listed: Vec<(usize, &'static str)> = Vec::new();
        let mut idx: usize = 0;
        while idx < slots.len()
            invariant
                idx <= slots@.len(),
                slots@ == self@,
                listed@.len() == idx,
                forall|i: int| 0 <= i < idx ==> listed@[i] == (i as usize, self@[i].0),
            decreases slots@.len() - idx,
        {
            listed.push((idx, slots[idx].0));
            idx += 1;
        }
        listed
    }

    /// The marker at `index`, if there is one.
    pub fn entry(&self, index: usize) -> (entry: Option<MarkerEntry>)
        ensures
            index < self@.len() ==> entry == Some(self@[index as int]),
            index >= self@.len() ==> entry is None,
    {
        match self.entries.get(index) {
            Some(entry) => Some(*entry),
            None => None,
        }
    }

    /// The address of the marker at `index`, if there is one.
    pub fn resolve(&self, index: usize) -> (address: Option<usize>)
        ensures
            index < self@.len() ==> address == Some(self@[index as int].1),
            index >= self@.len() ==> address is None,
    {
        match self.entries.get(index) {
            Some(entry) => Some(entry.1),
            None => None,
        }
    }
}

/// Adds a marker to `markers`. If the table is full, nothing will occur.
pub fn add_marker_manual<const CAP: usize>(
    markers: &mut MarkerRegistry<CAP>,
    name: &'static str,
    address: usize,
)
    ensures
        final(markers)@ == registered(old(markers)@, CAP as int, (name, address)),
{
    markers.register(name, address);
}

/// However many markers are registered in an empty table, the table then holds
/// the first `capacity` of them, in the order in which they came.
pub proof fn lemma_registry_saturates(capacity: int, more: Seq<MarkerEntry>)
    requires
        0 <= capacity,
    ensures
        more.len() <= capacity ==> registered_all(Seq::empty(), capacity, more) == more,
        more.len() > capacity ==> registered_all(Seq::empty(), capacity, more) == more.take(
            capacity,
        ),
    decreases more.len(),
{
    if more.len() > 0 {
        lemma_registry_saturates(capacity, more.drop_last());
    }
}

/// A full table is left unchanged by any further registrations.
pub proof fn lemma_full_registry_is_fixed(
    entries: Seq<MarkerEntry>,
    capacity: int,
    more: Seq<MarkerEntry>,
)
    requires
        entries.len() >= capacity,
    ensures
        registered_all(entries, capacity, more) == entries,
    decreases more.len(),
{
    if more.len() > 0 {
        lemma_full_registry_is_fixed(entries, capacity, more.drop_last());
    }
}

} // verus!
