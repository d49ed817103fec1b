//! The mathematical model of a function registry.
//!
//! A registry is two things: the slots it has created, numbered in the order
//! of their creation, and the binding of each registered key to one of them.
//! The operations of the registry are functions from state to state.

use vstd::prelude::*;
use vstd::set_lib::lemma_len_subset;

verus! {

/// The state of a registry.
#[verifier::ext_equal]
pub struct RegistryState<H> {
    /// The number of the slot that each registered key is bound to.
    pub bindings: Map<Seq<char>, nat>,
    /// What each slot holds, by the slot's number. Slots are never removed.
    pub slots: Seq<Option<H>>,
}

/// An operation that changes the state of a registry.
pub enum Operation<H> {
    /// `key` is registered.
    Register { key: Seq<char> },
    /// `key` is resolved to `handle`.
    Resolve { key: Seq<char>, handle: H },
    /// `handle` is published into the slot with number `slot`.
    Publish { slot: nat, handle: H },
}

impl<H> RegistryState<H> {
    /// The state of a registry in which nothing was registered.
    pub open spec fn empty() -> Self {
        RegistryState { bindings: Map::empty(), slots: Seq::empty() }
    }

    /// Finitely many keys are registered, each is bound to a slot that exists,
    /// and no slot is bound to two keys.
    pub open spec fn wf(self) -> bool {
        &&& self.bindings.dom().finite()
        &&& forall|key: Seq<char>| #[trigger]
            self.bindings.contains_key(key) ==> self.bindings[key] < self.slots.len()
        &&& forall|a: Seq<char>, b: Seq<char>|
            #![trigger self.bindings[a], self.bindings[b]]
            self.bindings.contains_key(a) && self.bindings.contains_key(b) && self.bindings[a]
                == self.bindings[b] ==> a == b
    }

    /// Whether `key` is registered.
    pub open spec fn registered(self, key: Seq<char>) -> bool {
        self.bindings.contains_key(key)
    }

    /// Whether the registry has created a slot with number `slot`.
    pub open spec fn has_slot(self, slot: nat) -> bool {
        slot < self.slots.len()
    }

    /// The slot that `key` is bound to, if it is registered.
    pub open spec fn get(self, key: Seq<char>) -> Option<nat> {
        if self.registered(key) {
            Some(self.bindings[key])
        } else {
            None
        }
    }

    /// What the slot with number `slot` holds; a slot that does not exist
    /// holds nothing.
    pub open spec fn read(self, slot: nat) -> Option<H> {
        if self.has_slot(slot) {
            self.slots[slot as int]
        } else {
            None
        }
    }

    /// Whether some registered key is bound to the slot with number `slot`.
    pub open spec fn reachable(self, slot: nat) -> bool {
        exists|key: Seq<char>| #[trigger] self.bindings.contains_key(key) && self.bindings[key] == slot
    }

    /// The number that the next slot to be created will have.
    pub open spec fn next_slot(self) -> nat {
        self.slots.len()
    }

    /// The state after `key` is registered: a new, empty slot exists, and `key`
    /// is bound to it, whatever it was bound to before.
    pub open spec fn register(self, key: Seq<char>) -> Self {
        RegistryState {
            bindings: self.bindings.insert(key, self.next_slot()),
            slots: self.slots.push(None),
        }
    }

    /// The state after `handle` is published into the slot with number `slot`.
    /// Nothing changes if there is no such slot.
    pub open spec fn publish(self, slot: nat, handle: H) -> Self {
        if self.has_slot(slot) {
            RegistryState {
                bindings: self.bindings,
                slots: self.slots.update(slot as int, Some(handle)),
            }
        } else {
            self
        }
    }

    /// The state after `key` is resolved to `handle`: the handle is published
    /// into the slot that the key is bound to. Nothing changes if the key is
    /// not registered.
    pub open spec fn resolve(self, key: Seq<char>, handle: H) -> Self {
        if self.registered(key) {
            self.publish(self.bindings[key], handle)
        } else {
            self
        }
    }

    /// The number of registered keys.
    pub open spec fn len(self) -> nat {
        self.bindings.dom().len()
    }

    /// Whether `key` is registered and the slot it is bound to holds a handle.
    pub open spec fn resolved(self, key: Seq<char>) -> bool {
        self.registered(key) && self.read(self.bindings[key]) is Some
    }

    /// The registered keys whose slots hold a handle.
    pub open spec fn resolved_keys(self) -> Set<Seq<char>> {
        Set::new(|key: Seq<char>| self.resolved(key))
    }

    /// The number of registered keys whose slots hold a handle.
    pub open spec fn resolved_count(self) -> nat {
        self.resolved_keys().len()
    }

    /// The resolved keys are among the registered keys, so there are finitely
    /// many of them, and no more than there are registered keys.
    pub proof fn lemma_resolved_keys_finite(self)
        requires
            self.wf(),
        ensures
            self.resolved_keys().finite(),
            self.resolved_keys().subset_of(self.bindings.dom()),
            self.resolved_count() <= self.len(),
    {
        lemma_len_subset(self.resolved_keys(), self.bindings.dom());
    }

    /// The state after one operation.
    pub open spec fn apply(self, operation: Operation<H>) -> Self {
        match operation {
            Operation::Register { key } => self.register(key),
            Operation::Resolve { key, handle } => self.resolve(key, handle),
            Operation::Publish { slot, handle } => self.publish(slot, handle),
        }
    }

    /// The state of a registry that was created empty and then went through
    /// `history`, first operation first.
    pub open spec fn after(history: Seq<Operation<H>>) -> Self
        decreases history.len(),
    {
        if history.len() == 0 {
            Self::empty()
        } else {
            Self::after(history.drop_last()).apply(history.last())
        }
    }
}

} // verus!
