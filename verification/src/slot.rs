//! Function reference slots: the cells through which a consumer reaches a
//! function whose provider may not be loaded yet.

use vstd::prelude::*;

verus! {

/// A cell that is empty until the handle of the provided function is published
/// into it. Its view is what it currently holds.
pub struct Slot<H> {
    handle: Option<H>,
}

impl<H> View for Slot<H> {
    type V = Option<H>;

    closed spec fn view(&self) -> Option<H> {
        self.handle
    }
}

impl<H> Slot<H> {
    /// A slot that holds nothing yet.
    pub fn new() -> (slot: Self)
        ensures
            slot@ is None,
    {
        Slot { handle: None }
    }

    /// Stores `handle` in the slot, in place of whatever it held.
    pub fn publish(&mut self, handle: H)
        ensures
            final(self)@ == Some(handle),
    {
        self.handle = Some(handle);
    }

    /// The handle that the slot holds at present, if any.
    pub fn read(&self) -> (current: Option<&H>)
        ensures
            match current {
                Some(handle) => self@ == Some(*handle),
                None => self@ is None,
            },
    {
        self.handle.as_ref()
    }

    /// Whether a handle has been published into the slot.
    pub fn is_resolved(&self) -> (resolved: bool)
        ensures
            resolved == self@.is_some(),
    {
        self.handle.is_some()
    }
}

/// A handle to one slot of a registry, free to copy and to share. A registry
/// numbers its slots in the order in which it creates them, and the view of a
/// handle is the number of its slot. The slot itself stays in the registry:
/// it is read and written through the registry that issued the handle.
#[derive(Clone, Copy, Debug, PartialEq, Eq, Structural)]
pub struct SlotHandle {
    index: usize,
}

impl View for SlotHandle {
    type V = nat;

    closed spec fn view(&self) -> nat {
        self.index as nat
    }
}

impl SlotHandle {
    /// The handle to the slot with number `index`.
    pub(crate) fn from_index(index: usize) -> (id: Self)
        ensures
            id@ == index,
    {
        SlotHandle { index }
    }

    /// Two handles to the slot with the same number are the same handle.
    pub proof fn lemma_same_number(self, other: SlotHandle)
        requires
            self@ == other@,
        ensures
            self == other,
    {
    }

    /// The number of the slot that the handle refers to.
    pub fn index(&self) -> (index: usize)
        ensures
            index == self@,
    {
        self.index
    }
}

} // verus!
