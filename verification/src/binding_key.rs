//! Binding keys: the textual names under which cross-module function
//! bindings are registered.

use vstd::prelude::*;

verus! {

/// The character that separates the components of a binding key.
pub open spec fn delimiter() -> char {
    ':'
}

/// The key of the binding `extension:interface:function`, as a sequence of
/// characters.
pub open spec fn key_of(extension: Seq<char>, interface: Seq<char>, function: Seq<char>) -> Seq<
    char,
> {
    extension + seq![delimiter()] + interface + seq![delimiter()] + function
}

/// Whether `component` can stand in a key without being mistaken for two
/// components: it holds no delimiter.
pub open spec fn delimiter_free(component: Seq<char>) -> bool {
    forall|i: int| 0 <= i < component.len() ==> component[i] != delimiter()
}

/// A sequence splits at its first delimiter in one way only: what stands
/// before a delimiter and holds none is the same on both sides, and so is what
/// follows.
proof fn lemma_first_component(
    first: Seq<char>,
    rest: Seq<char>,
    other_first: Seq<char>,
    other_rest: Seq<char>,
)
    requires
        delimiter_free(first),
        delimiter_free(other_first),
        first + seq![delimiter()] + rest == other_first + seq![delimiter()] + other_rest,
    ensures
        first == other_first,
        rest == other_rest,
{
    let joined = first + seq![delimiter()] + rest;
    let other_joined = other_first + seq![delimiter()] + other_rest;
    assert(joined[first.len() as int] == delimiter());
    assert(other_joined[other_first.len() as int] == delimiter());
    if first.len() < other_first.len() {
        assert(other_joined[first.len() as int] == other_first[first.len() as int]);
    }
    if other_first.len() < first.len() {
        assert(joined[other_first.len() as int] == first[other_first.len() as int]);
    }
    assert(first.len() == other_first.len());
    assert(first =~= other_first) by {
        assert forall|i: int| 0 <= i < first.len() implies first[i] == other_first[i] by {
            assert(joined[i] == first[i]);
            assert(other_joined[i] == other_first[i]);
        }
    }
    assert(rest =~= other_rest) by {
        assert(joined.len() == other_joined.len());
        assert forall|i: int| 0 <= i < rest.len() implies rest[i] == other_rest[i] by {
            assert(joined[first.len() + 1 + i] == rest[i]);
            assert(other_joined[first.len() + 1 + i] == other_rest[i]);
        }
    }
}

/// Two bindings with the same key are the same binding, as long as neither
/// the extension identifiers nor the interface names hold a delimiter.
pub proof fn lemma_key_injective(
    extension: Seq<char>,
    interface: Seq<char>,
    function: Seq<char>,
    other_extension: Seq<char>,
    other_interface: Seq<char>,
    other_function: Seq<char>,
)
    requires
        delimiter_free(extension),
        delimiter_free(interface),
        delimiter_free(other_extension),
        delimiter_free(other_interface),
        key_of(extension, interface, function) == key_of(
            other_extension,
            other_interface,
            other_function,
        ),
    ensures
        extension == other_extension,
        interface == other_interface,
        function == other_function,
{
    let rest = interface + seq![delimiter()] + function;
    let other_rest = other_interface + seq![delimiter()] + other_function;
    assert(key_of(extension, interface, function) =~= extension + seq![delimiter()] + rest);
    assert(key_of(other_extension, other_interface, other_function) =~= other_extension
        + seq![delimiter()] + other_rest);
    lemma_first_component(extension, rest, other_extension, other_rest);
    lemma_first_component(interface, function, other_interface, other_function);
}

} // verus!
