//! The function registry: binding keys on one side, slots on the other.

use crate::binding_key::{delimiter, key_of};
use crate::registry_state::RegistryState;
use crate::slot::{Slot, SlotHandle};
use vstd::hash_map::StringHashMap;
use vstd::prelude::*;
use vstd::string::StringExecFns;

verus! {

/// Tracks the function references between extensions. A consumer registers
/// the key of a function it needs and is given a handle to a slot; once the
/// provider is loaded, resolving the key publishes the function into that
/// slot, where every holder of the slot's handle reads it.
///
/// The registry owns its slots and never removes one. `H` is the type of the
/// callable handles that are published; the registry never looks into them.
pub struct FunctionRegistry<H> {
    /// Every slot created so far, in the order of creation.
    slots: Vec<Slot<H>>,
    /// For each slot, the key it was created for.
    keys: Vec<String>,
    /// The position in `slots` of the slot that each key is bound to.
    index: StringHashMap<usize>,
}

impl<H> View for FunctionRegistry<H> {
    type V = RegistryState<H>;

    closed spec fn view(&self) -> RegistryState<H> {
        RegistryState {
            bindings: Map::new(
                |key: Seq<char>| self.index@.contains_key(key),
                |key: Seq<char>| self.index@[key] as nat,
            ),
            slots: Seq::new(self.slots@.len(), |i: int| self.slots@[i]@),
        }
    }
}

impl<H> FunctionRegistry<H> {
    /// Each key is bound to a slot that was created for it.
    #[verifier::type_invariant]
    spec fn inv(self) -> bool {
        &&& self.keys@.len() == self.slots@.len()
        &&& self.index@.dom().finite()
        &&& forall|key: Seq<char>| #[trigger]
            self.index@.contains_key(key) ==> self.index@[key] < self.keys@.len()
                && self.keys@[self.index@[key] as int]@ == key
    }

    proof fn lemma_view_wf(self)
        requires
            self.inv(),
        ensures
            self@.wf(),
    {
        assert(self@.bindings.dom() =~= self.index@.dom());
    }

    /// Creates a registry in which nothing is registered.
    pub fn new() -> (registry: Self)
        ensures
            registry@ == RegistryState::<H>::empty(),
            registry@.wf(),
    {
        let registry = FunctionRegistry {
            slots: Vec::new(),
            keys: Vec::new(),
            index: StringHashMap::new(),
        };
        assert(registry@ =~= RegistryState::<H>::empty());
        registry
    }

    /// Creates an empty slot, binds `key` to it and returns a handle to the
    /// slot. A slot that `key` was bound to before stays as it is, but is no
    /// longer found under `key`.
    pub fn register(&mut self, key: String) -> (slot: SlotHandle)
        ensures
            final(self)@ == old(self)@.register(key@),
            final(self)@.wf(),
            slot@ == old(self)@.next_slot(),
    {
        proof {
            use_type_invariant(&*self);
        }
        let mut taken = FunctionRegistry::new();
        std::mem::swap(&mut taken, self);
        let FunctionRegistry { mut slots, mut keys, mut index } = taken;
        let position = slots.len();
        slots.push(Slot::new());
        keys.push(key.clone());
        index.insert(key, position);
        *self = FunctionRegistry { slots, keys, index };
        proof {
            assert(final(self)@ =~= old(self)@.register(key@));
            self.lemma_view_wf();
        }
        SlotHandle::from_index(position)
    }

    /// A handle to the slot that `key` is bound to, if `key` is registered.
    pub fn get(&self, key: &str) -> (found: Option<SlotHandle>)
        ensures
            match found {
                Some(slot) => self@.get(key@) == Some(slot@),
                None => self@.get(key@) is None,
            },
            self@.wf(),
    {
        proof {
            use_type_invariant(self);
            self.lemma_view_wf();
        }
        match self.index.get(key) {
            Some(position) => Some(SlotHandle::from_index(*position)),
            None => None,
        }
    }

    /// Publishes `func` into the slot that `slot` refers to, in place of
    /// whatever it held, and returns `true`. If this registry has created no
    /// such slot, nothing changes and the result is `false`.
    pub fn publish(&mut self, slot: SlotHandle, func: H) -> (published: bool)
        ensures
            published == old(self)@.has_slot(slot@),
            final(self)@ == old(self)@.publish(slot@, func),
            final(self)@.wf(),
    {
        proof {
            use_type_invariant(&*self);
            self.lemma_view_wf();
        }
        let position = slot.index();
        if position < self.slots.len() {
            self.slots[position].publish(func);
            proof {
                assert(final(self)@ =~= old(self)@.publish(slot@, func));
                self.lemma_view_wf();
            }
            true
        } else {
            false
        }
    }

    /// Publishes `func` into the slot that `key` is bound to and returns
    /// `true`. If `key` is not registered, nothing changes and the result is
    /// `false`.
    pub fn resolve(&mut self, key: &str, func: H) -> (resolved: bool)
        ensures
            resolved == old(self)@.registered(key@),
            final(self)@ == old(self)@.resolve(key@, func),
            final(self)@.wf(),
    {
        match self.get(key) {
            Some(slot) => self.publish(slot, func),
            None => false,
        }
    }

    /// What the slot that `slot` refers to holds at present. The result is
    /// `None` while nothing is published into the slot, and for a slot that
    /// this registry has not created.
    pub fn read(&self, slot: SlotHandle) -> (current: Option<&H>)
        ensures
            match current {
                Some(func) => self@.read(slot@) == Some(*func),
                None => self@.read(slot@) is None,
            },
            self@.wf(),
    {
        proof {
            use_type_invariant(self);
            self.lemma_view_wf();
        }
        let position = slot.index();
        if position < self.slots.len() {
            self.slots[position].read()
        } else {
            None
        }
    }

    /// Builds the binding key of a function from the identifier of the
    /// extension that provides it, the name of the interface and the name of
    /// the function.
    pub fn create_key(extension: &str, interface: &str, function: &str) -> (key: String)
        ensures
            key@ == key_of(extension@, interface@, function@),
    {
        proof {
            reveal_strlit(":");
        }
        let mut key = String::from_str(extension);
        key.append(":");
        key.append(interface);
        key.append(":");
        key.append(function);
        assert(":"@ =~= seq![delimiter()]);
        key
    }

    /// The number of registered keys.
    pub fn len(&self) -> (count: usize)
        ensures
            count == self@.len(),
            self@.wf(),
    {
        proof {
            use_type_invariant(self);
            self.lemma_view_wf();
            assert(self@.bindings.dom() =~= self.index@.dom());
        }
        self.index.len()
    }

    /// The registered keys that are resolved and bound to a slot before
    /// position `bound`.
    spec fn resolved_below(self, bound: int) -> Set<Seq<char>> {
        Set::new(|key: Seq<char>| self@.resolved(key) && self@.bindings[key] < bound)
    }

    /// The number of registered keys whose slots hold a function at present,
    /// counted anew on every call.
    pub fn resolved_count(&self) -> (count: usize)
        ensures
            count == self@.resolved_count(),
            self@.wf(),
    {
        proof {
            use_type_invariant(self);
            self.lemma_view_wf();
            assert(self.resolved_below(0) =~= Set::<Seq<char>>::empty());
        }
        let mut count: usize = 0;
        let mut position: usize = 0;
        while position < self.slots.len()
            invariant
                position <= self.slots@.len(),
                count <= position,
                self.resolved_below(position as int).finite(),
                count == self.resolved_below(position as int).len(),
            decreases self.slots@.len() - position,
        {
            proof {
                use_type_invariant(self);
            }
            let bound_here = match self.index.get(self.keys[position].as_str()) {
                Some(bound) => *bound == position,
                None => false,
            };
            if bound_here && self.slots[position].is_resolved() {
                proof {
                    let key = self.keys@[position as int]@;
                    assert(self.resolved_below(position + 1) =~= self.resolved_below(
                        position as int,
                    ).insert(key));
                }
                count += 1;
            } else {
                proof {
                    assert(self.resolved_below(position + 1) =~= self.resolved_below(
                        position as int,
                    ));
                }
            }
            position += 1;
        }
        proof {
            assert(self.resolved_below(position as int) =~= self@.resolved_keys());
        }
        count
    }

    /// Whether no key is registered.
    pub fn is_empty(&self) -> (empty: bool)
        ensures
            empty == (self@.len() == 0),
            self@.wf(),
    {
        self.len() == 0
    }
}

} // verus!
