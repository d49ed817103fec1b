//! How the operations of a registry act together.

use crate::registry_state::{Operation, RegistryState};
use vstd::prelude::*;

verus! {

/// Nothing is registered or resolved in the empty state, and it is
/// well-formed.
pub proof fn lemma_empty<H>()
    ensures
        RegistryState::<H>::empty().wf(),
        RegistryState::<H>::empty().len() == 0,
        RegistryState::<H>::empty().resolved_count() == 0,
{
    assert(RegistryState::<H>::empty().resolved_keys() =~= Set::<Seq<char>>::empty());
}

/// Every operation takes a well-formed state to a well-formed state, and
/// removes nothing: a key that was registered stays registered, and a slot
/// that existed still exists.
pub proof fn lemma_apply_wf<H>(state: RegistryState<H>, operation: Operation<H>)
    requires
        state.wf(),
    ensures
        state.apply(operation).wf(),
        forall|key: Seq<char>| state.registered(key) ==> state.apply(operation).registered(key),
        forall|slot: nat| state.has_slot(slot) ==> state.apply(operation).has_slot(slot),
        state.len() <= state.apply(operation).len(),
{
    match operation {
        Operation::Register { key } => {
            lemma_register(state, key);
        },
        Operation::Resolve { key, handle } => {},
        Operation::Publish { slot, handle } => {},
    }
}

/// Whatever a registry went through since it was created, its state is
/// well-formed.
pub proof fn lemma_after_wf<H>(history: Seq<Operation<H>>)
    ensures
        RegistryState::after(history).wf(),
    decreases history.len(),
{
    if history.len() > 0 {
        lemma_after_wf(history.drop_last());
        lemma_apply_wf(RegistryState::after(history.drop_last()), history.last());
    }
}

/// A key is registered exactly if some operation of the history registered it.
pub proof fn lemma_registered_by_history<H>(history: Seq<Operation<H>>, key: Seq<char>)
    ensures
        RegistryState::after(history).registered(key) <==> exists|i: int|
            0 <= i < history.len() && #[trigger] history[i] == (Operation::<H>::Register { key }),
    decreases history.len(),
{
    if history.len() > 0 {
        let earlier = history.drop_last();
        lemma_registered_by_history(earlier, key);
        let last = history.len() - 1;
        if RegistryState::after(history).registered(key) {
            if history.last() == (Operation::<H>::Register { key }) {
                assert(history[last] == (Operation::<H>::Register { key }));
            } else {
                assert(RegistryState::after(earlier).registered(key));
                let i = choose|i: int|
                    0 <= i < earlier.len() && #[trigger] earlier[i] == (Operation::<H>::Register {
                        key,
                    });
                assert(history[i] == earlier[i]);
            }
        }
        if exists|i: int|
            0 <= i < history.len() && #[trigger] history[i] == (Operation::<H>::Register { key }) {
            let i = choose|i: int|
                0 <= i < history.len() && #[trigger] history[i] == (Operation::<H>::Register {
                    key,
                });
            if i < last {
                assert(earlier[i] == history[i]);
            }
        }
    }
}

/// A key that is not registered is not found, resolving it does nothing, and
/// it is not among the keys that `len` counts.
pub proof fn lemma_unregistered_key<H>(state: RegistryState<H>, key: Seq<char>, handle: H)
    requires
        state.wf(),
        !state.registered(key),
    ensures
        state.get(key) is None,
        state.resolve(key, handle) == state,
        !state.bindings.dom().contains(key),
        state.bindings.dom().remove(key).len() == state.len(),
        !state.resolved(key),
{
    assert(state.bindings.dom().remove(key) =~= state.bindings.dom());
}

/// A key that no operation of the history registered is not registered.
pub proof fn lemma_never_registered<H>(history: Seq<Operation<H>>, key: Seq<char>)
    requires
        forall|i: int|
            0 <= i < history.len() ==> #[trigger] history[i] != (Operation::<H>::Register { key }),
    ensures
        !RegistryState::after(history).registered(key),
        RegistryState::after(history).get(key) is None,
        RegistryState::after(history).wf(),
{
    lemma_registered_by_history(history, key);
    lemma_after_wf(history);
}

/// After a key is registered it is bound to a new slot, which is empty. If the
/// key was not registered before, one more key is registered than before;
/// else as many as before. No other key and no earlier slot is touched.
pub proof fn lemma_register<H>(state: RegistryState<H>, key: Seq<char>)
    requires
        state.wf(),
    ensures
        state.register(key).wf(),
        state.register(key).get(key) == Some(state.next_slot()),
        !state.has_slot(state.next_slot()),
        state.register(key).read(state.next_slot()) is None,
        !state.register(key).resolved(key),
        !state.registered(key) ==> state.register(key).len() == state.len() + 1,
        state.registered(key) ==> state.register(key).len() == state.len(),
        forall|other: Seq<char>|
            other != key ==> state.register(key).get(other) == state.get(other),
        forall|slot: nat|
            state.has_slot(slot) ==> state.register(key).read(slot) == state.read(slot),
{
    let next = state.register(key);
    assert(next.bindings.dom() =~= state.bindings.dom().insert(key));
    if state.registered(key) {
        assert(state.bindings.dom().insert(key) =~= state.bindings.dom());
    }
}

/// Registering a key that was resolved takes it out of the resolved keys;
/// registering any other key leaves the number of resolved keys as it was.
pub proof fn lemma_register_resolved_count<H>(state: RegistryState<H>, key: Seq<char>)
    requires
        state.wf(),
    ensures
        state.resolved(key) ==> state.register(key).resolved_count() + 1
            == state.resolved_count(),
        !state.resolved(key) ==> state.register(key).resolved_count() == state.resolved_count(),
{
    let next = state.register(key);
    state.lemma_resolved_keys_finite();
    assert forall|other: Seq<char>| other != key implies next.resolved(other) == state.resolved(
        other,
    ) by {
        if state.registered(other) {
            assert(state.bindings[other] < state.slots.len());
        }
    }
    assert(next.resolved_keys() =~= state.resolved_keys().remove(key));
}

/// Publishing into a slot that exists changes what that slot holds, and
/// nothing else: not the bindings, not another slot.
pub proof fn lemma_publish<H>(state: RegistryState<H>, slot: nat, handle: H)
    requires
        state.wf(),
    ensures
        state.publish(slot, handle).wf(),
        state.publish(slot, handle).bindings == state.bindings,
        state.publish(slot, handle).len() == state.len(),
        state.has_slot(slot) ==> state.publish(slot, handle).read(slot) == Some(handle),
        !state.has_slot(slot) ==> state.publish(slot, handle) == state,
        forall|other: nat|
            other != slot ==> state.publish(slot, handle).read(other) == state.read(other),
{
}

/// Resolving a registered key publishes the handle into the slot that the key
/// is bound to: whoever holds the name of that slot, from before or after,
/// reads the handle from then on. The bindings, the number of registered keys
/// and every other slot stay as they were, and the key counts as resolved: one
/// more key than before if it was not resolved, as many as before if it was.
pub proof fn lemma_resolve<H>(state: RegistryState<H>, key: Seq<char>, handle: H)
    requires
        state.wf(),
        state.registered(key),
    ensures
        state.resolve(key, handle).wf(),
        state.resolve(key, handle).get(key) == state.get(key),
        state.resolve(key, handle).bindings == state.bindings,
        state.resolve(key, handle).read(state.bindings[key]) == Some(handle),
        state.resolve(key, handle).len() == state.len(),
        state.resolve(key, handle).resolved(key),
        forall|other: nat|
            other != state.bindings[key] ==> state.resolve(key, handle).read(other) == state.read(
                other,
            ),
        !state.resolved(key) ==> state.resolve(key, handle).resolved_count()
            == state.resolved_count() + 1,
        state.resolved(key) ==> state.resolve(key, handle).resolved_count()
            == state.resolved_count(),
{
    let next = state.resolve(key, handle);
    state.lemma_resolved_keys_finite();
    assert forall|other: Seq<char>| other != key implies next.resolved(other) == state.resolved(
        other,
    ) by {
        if state.registered(other) {
            assert(state.bindings[other] != state.bindings[key]);
        }
    }
    assert(next.resolved_keys() =~= state.resolved_keys().insert(key));
    if state.resolved(key) {
        assert(state.resolved_keys().insert(key) =~= state.resolved_keys());
    }
}

/// After a key is registered and then resolved, the slot that registering
/// returned holds the handle, the key is still bound to that slot, and one
/// more key is resolved than after registering.
pub proof fn lemma_register_then_resolve<H>(state: RegistryState<H>, key: Seq<char>, handle: H)
    requires
        state.wf(),
    ensures
        state.register(key).registered(key),
        state.register(key).resolve(key, handle).wf(),
        state.register(key).get(key) == Some(state.next_slot()),
        state.register(key).resolve(key, handle).get(key) == Some(state.next_slot()),
        state.register(key).resolve(key, handle).read(state.next_slot()) == Some(handle),
        state.register(key).resolve(key, handle).len() == state.register(key).len(),
        state.register(key).resolve(key, handle).resolved_count() == state.register(
            key,
        ).resolved_count() + 1,
        !state.resolved(key) ==> state.register(key).resolve(key, handle).resolved_count()
            == state.resolved_count() + 1,
{
    lemma_register(state, key);
    lemma_register_resolved_count(state, key);
    lemma_resolve(state.register(key), key, handle);
}

/// Resolving a key a second time overwrites what the first resolution
/// published: the state is the one that the second resolution alone would
/// have given, so the slot holds the second handle, and neither the number of
/// registered keys nor that of resolved keys changes with the second.
pub proof fn lemma_resolve_again<H>(state: RegistryState<H>, key: Seq<char>, first: H, second: H)
    requires
        state.wf(),
        state.registered(key),
    ensures
        state.resolve(key, first).resolve(key, second) == state.resolve(key, second),
        state.resolve(key, first).resolve(key, second).read(state.bindings[key]) == Some(second),
        state.resolve(key, first).resolve(key, second).len() == state.len(),
        state.resolve(key, first).resolve(key, second).resolved_count() == state.resolve(
            key,
            first,
        ).resolved_count(),
{
    lemma_resolve(state, key, first);
    lemma_resolve(state.resolve(key, first), key, second);
    assert(state.resolve(key, first).resolve(key, second) =~= state.resolve(key, second));
}

/// After a key is registered twice it is bound to the second slot, which is
/// empty, and as many keys are registered as after the first time. The first
/// slot is still there, but no key is bound to it: resolving the key leaves it
/// as it is, while publishing into it by name changes it and nothing else.
pub proof fn lemma_register_again<H>(state: RegistryState<H>, key: Seq<char>, handle: H)
    requires
        state.wf(),
    ensures
        ({
            let once = state.register(key);
            let twice = once.register(key);
            let first = state.next_slot();
            let second = once.next_slot();
            &&& twice.wf()
            &&& first != second
            &&& once.get(key) == Some(first)
            &&& twice.get(key) == Some(second)
            &&& twice.read(second) is None
            &&& twice.len() == once.len()
            &&& twice.has_slot(first)
            &&& twice.read(first) == once.read(first)
            &&& !twice.reachable(first)
            &&& twice.resolve(key, handle).read(first) == twice.read(first)
            &&& twice.resolve(key, handle).read(second) == Some(handle)
            &&& twice.publish(first, handle).read(first) == Some(handle)
            &&& twice.publish(first, handle).read(second) == twice.read(second)
            &&& twice.publish(first, handle).bindings == twice.bindings
        }),
{
    let once = state.register(key);
    let twice = once.register(key);
    lemma_register(state, key);
    lemma_register(once, key);
    lemma_resolve(twice, key, handle);
    lemma_publish(twice, state.next_slot(), handle);
    assert forall|other: Seq<char>| #[trigger] twice.bindings.contains_key(other) implies
        twice.bindings[other] != state.next_slot() by {
        if other != key {
            assert(state.bindings.contains_key(other));
        }
    }
}

} // verus!
