use extension_host::function_registry::FunctionRegistry;
use wasmtime::component::Func;

#[test]
fn test_create_key() {
    let key = FunctionRegistry::<Func>::create_key("ext-a", "math/lib", "add");
    assert_eq!(key, "ext-a:math/lib:add");
}

#[test]
fn test_register_and_get() {
    let mut registry: FunctionRegistry<Func> = FunctionRegistry::new();
    let key = "ext-a:math/lib:add".to_string();

    let reference = registry.register(key.clone());
    assert!(registry.get(&key).is_some());

    // Check that the reference is initially None
    assert!(registry.read(reference).is_none());
}

#[test]
fn test_resolve() {
    let mut registry: FunctionRegistry<Func> = FunctionRegistry::new();
    let key = "ext-a:math/lib:add".to_string();

    registry.register(key.clone());

    // A component function cannot be made without an instance, so this only
    // checks that the reference exists
    assert!(registry.get(&key).is_some());
}

#[test]
fn test_len_and_is_empty() {
    let mut registry: FunctionRegistry<Func> = FunctionRegistry::new();
    assert!(registry.is_empty());
    assert_eq!(registry.len(), 0);

    registry.register("ext-a:math/lib:add".to_string());
    assert!(!registry.is_empty());
    assert_eq!(registry.len(), 1);

    registry.register("ext-a:math/lib:subtract".to_string());
    assert_eq!(registry.len(), 2);
}

#[test]
fn create_key_joins_with_colons() {
    assert_eq!(FunctionRegistry::<u32>::create_key("a", "b", "c"), "a:b:c");
    assert_eq!(FunctionRegistry::<u32>::create_key("", "", ""), "::");
    assert_eq!(FunctionRegistry::<u32>::create_key("ext", "", "f"), "ext::f");
    assert_eq!(
        FunctionRegistry::<u32>::create_key("caf\u{e9}", "\u{6570}\u{5b66}/lib", "add"),
        "caf\u{e9}:\u{6570}\u{5b66}/lib:add"
    );
}

#[test]
fn create_key_is_deterministic() {
    let first = FunctionRegistry::<u32>::create_key("ext-a", "math/lib", "add");
    let second = FunctionRegistry::<u32>::create_key("ext-a", "math/lib", "add");
    assert_eq!(first, second);
}

#[test]
fn create_key_tells_clean_components_apart() {
    let add = FunctionRegistry::<u32>::create_key("ext-a", "math/lib", "add");
    let subtract = FunctionRegistry::<u32>::create_key("ext-a", "math/lib", "subtract");
    let other_extension = FunctionRegistry::<u32>::create_key("ext-b", "math/lib", "add");
    let other_interface = FunctionRegistry::<u32>::create_key("ext-a", "text/lib", "add");
    assert_ne!(add, subtract);
    assert_ne!(add, other_extension);
    assert_ne!(add, other_interface);
}

#[test]
fn create_key_collides_when_a_component_holds_the_delimiter() {
    let left = FunctionRegistry::<u32>::create_key("a:b", "c", "d");
    let right = FunctionRegistry::<u32>::create_key("a", "b:c", "d");
    assert_eq!(left, right);
}

#[test]
fn unregistered_key_is_absent() {
    let mut registry: FunctionRegistry<u32> = FunctionRegistry::new();
    registry.register("ext-a:math/lib:add".to_string());

    assert!(registry.get("ext-a:math/lib:subtract").is_none());
    assert!(!registry.resolve("ext-a:math/lib:subtract", 7));
    assert_eq!(registry.len(), 1);
    assert_eq!(registry.resolved_count(), 0);
    assert!(registry.get("").is_none());
}

#[test]
fn resolve_on_empty_registry_fails() {
    let mut registry: FunctionRegistry<u32> = FunctionRegistry::new();
    assert!(!registry.resolve("ext-a:math/lib:add", 1));
    assert!(registry.is_empty());
    assert_eq!(registry.len(), 0);
    assert_eq!(registry.resolved_count(), 0);
}

#[test]
fn register_binds_a_fresh_empty_slot() {
    let mut registry: FunctionRegistry<u32> = FunctionRegistry::new();
    let before = registry.len();
    let slot = registry.register("k".to_string());

    assert_eq!(registry.get("k"), Some(slot));
    assert_eq!(registry.read(slot), None);
    assert_eq!(registry.len(), before + 1);
    assert_eq!(registry.resolved_count(), 0);
}

#[test]
fn slots_are_numbered_in_order_of_creation() {
    let mut registry: FunctionRegistry<u32> = FunctionRegistry::new();
    let first = registry.register("a".to_string());
    let second = registry.register("b".to_string());
    let third = registry.register("a".to_string());
    assert_eq!(first.index(), 0);
    assert_eq!(second.index(), 1);
    assert_eq!(third.index(), 2);
}

#[test]
fn resolve_publishes_to_every_holder() {
    let mut registry: FunctionRegistry<String> = FunctionRegistry::new();
    let key = "ext-a:math/lib:add".to_string();
    let from_register = registry.register(key.clone());
    let before = registry.get(&key).unwrap();
    let count = registry.resolved_count();

    assert!(registry.resolve(&key, "add-handle".to_string()));

    let after = registry.get(&key).unwrap();
    assert_eq!(before, after);
    assert_eq!(from_register, after);
    assert_eq!(registry.read(before), Some(&"add-handle".to_string()));
    assert_eq!(registry.read(after), Some(&"add-handle".to_string()));
    assert_eq!(registry.read(from_register), Some(&"add-handle".to_string()));
    assert_eq!(registry.resolved_count(), count + 1);
    assert_eq!(registry.len(), 1);
}

#[test]
fn second_resolve_overwrites_the_first() {
    let mut registry: FunctionRegistry<u32> = FunctionRegistry::new();
    let slot = registry.register("k".to_string());

    assert!(registry.resolve("k", 1));
    assert_eq!(registry.read(slot), Some(&1));
    assert_eq!(registry.resolved_count(), 1);

    assert!(registry.resolve("k", 2));
    assert_eq!(registry.read(slot), Some(&2));
    assert_eq!(registry.len(), 1);
    assert_eq!(registry.resolved_count(), 1);
}

#[test]
fn register_again_shadows_the_first_slot() {
    let mut registry: FunctionRegistry<u32> = FunctionRegistry::new();
    let first = registry.register("k".to_string());
    assert!(registry.resolve("k", 10));
    assert_eq!(registry.resolved_count(), 1);

    let second = registry.register("k".to_string());
    assert_ne!(first, second);
    assert_eq!(registry.get("k"), Some(second));
    assert_eq!(registry.len(), 1);
    // the key is bound to an empty slot again
    assert_eq!(registry.read(second), None);
    assert_eq!(registry.resolved_count(), 0);
    // the first slot keeps what it held
    assert_eq!(registry.read(first), Some(&10));

    // resolving by key reaches the second slot only
    assert!(registry.resolve("k", 20));
    assert_eq!(registry.read(second), Some(&20));
    assert_eq!(registry.read(first), Some(&10));
    assert_eq!(registry.resolved_count(), 1);

    // the first slot can still be written by name
    assert!(registry.publish(first, 30));
    assert_eq!(registry.read(first), Some(&30));
    assert_eq!(registry.read(second), Some(&20));
    assert_eq!(registry.get("k"), Some(second));
    assert_eq!(registry.len(), 1);
    assert_eq!(registry.resolved_count(), 1);
}

#[test]
fn two_keys_one_resolved() {
    let mut registry: FunctionRegistry<u32> = FunctionRegistry::new();
    registry.register("ext-a:math/lib:add".to_string());
    registry.register("ext-a:math/lib:subtract".to_string());
    assert_eq!(registry.len(), 2);
    assert_eq!(registry.resolved_count(), 0);
    assert!(!registry.is_empty());

    assert!(registry.resolve("ext-a:math/lib:add", 5));
    assert_eq!(registry.resolved_count(), 1);
    assert_eq!(registry.len(), 2);

    assert!(registry.resolve("ext-a:math/lib:subtract", 6));
    assert_eq!(registry.resolved_count(), 2);
    assert_eq!(registry.len(), 2);
}

#[test]
fn resolve_leaves_other_slots_alone() {
    let mut registry: FunctionRegistry<u32> = FunctionRegistry::new();
    let add = registry.register("add".to_string());
    let subtract = registry.register("subtract".to_string());

    assert!(registry.resolve("subtract", 9));
    assert_eq!(registry.read(add), None);
    assert_eq!(registry.read(subtract), Some(&9));
}

#[test]
fn publish_by_slot_name_counts_as_resolved() {
    let mut registry: FunctionRegistry<u32> = FunctionRegistry::new();
    let slot = registry.register("k".to_string());
    assert!(registry.publish(slot, 4));
    assert_eq!(registry.read(slot), Some(&4));
    assert_eq!(registry.resolved_count(), 1);
    assert_eq!(registry.len(), 1);
}

#[test]
fn slot_of_another_registry_is_unknown() {
    let mut large: FunctionRegistry<u32> = FunctionRegistry::new();
    large.register("a".to_string());
    let foreign = large.register("b".to_string());

    let mut small: FunctionRegistry<u32> = FunctionRegistry::new();
    small.register("a".to_string());

    assert_eq!(small.read(foreign), None);
    assert!(!small.publish(foreign, 1));
    assert_eq!(small.resolved_count(), 0);
    assert_eq!(small.len(), 1);
}

#[test]
fn resolved_count_follows_many_keys() {
    let mut registry: FunctionRegistry<usize> = FunctionRegistry::new();
    for i in 0..50usize {
        let key = FunctionRegistry::<usize>::create_key("ext", "iface", &format!("f{}", i));
        registry.register(key);
    }
    assert_eq!(registry.len(), 50);
    for i in (0..50usize).filter(|i| i % 2 == 0) {
        let key = FunctionRegistry::<usize>::create_key("ext", "iface", &format!("f{}", i));
        assert!(registry.resolve(&key, i));
    }
    assert_eq!(registry.resolved_count(), 25);
    // registering resolved keys again empties them
    for i in 0..10usize {
        let key = FunctionRegistry::<usize>::create_key("ext", "iface", &format!("f{}", i));
        registry.register(key);
    }
    assert_eq!(registry.len(), 50);
    assert_eq!(registry.resolved_count(), 20);
}
