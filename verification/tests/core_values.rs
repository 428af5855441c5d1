use mquickjs_rs::context::{check_context_memory, memory_capacity_suffices, min_context_memory, MIN_HEAP_BYTES};
use mquickjs_rs::handles::{ContextId, Function, ReturnSafe, Root, RootId, RootsRegistry, SharedRootsRegistry, Traced};
use mquickjs_rs::js_value::{
    js_is_bool, js_mkbool, js_value_special_tag, JS_FALSE, JS_NULL, JS_TAG_BOOL, JS_TAG_NULL, JS_TRUE, JS_UNDEFINED,
    JS_VALUE_MAKE_SPECIAL,
};
use mquickjs_rs::my_service::{create_my_service_singleton, DefaultMyService, MyServiceSingleton};
use std::sync::Arc;

#[test]
fn special_values() {
    assert_eq!(JS_VALUE_MAKE_SPECIAL(JS_TAG_BOOL, 1), JS_TRUE);
    assert_eq!(JS_VALUE_MAKE_SPECIAL(JS_TAG_BOOL, 0), JS_FALSE);
    assert_eq!(JS_VALUE_MAKE_SPECIAL(JS_TAG_NULL, 0), JS_NULL);
    assert_eq!(js_mkbool(true), 35);
    assert_eq!(js_mkbool(false), 3);
    assert_eq!(js_value_special_tag(JS_VALUE_MAKE_SPECIAL(9, 1234)), 9);
    assert!(js_is_bool(JS_TRUE) && js_is_bool(JS_FALSE));
    assert!(!js_is_bool(JS_NULL) && !js_is_bool(JS_UNDEFINED));
}

#[test]
fn context_memory_bounds() {
    assert_eq!(min_context_memory(100, 10, ), Some(100 + 160 + MIN_HEAP_BYTES));
    assert_eq!(min_context_memory(usize::MAX, 1), None);
    assert!(memory_capacity_suffices(100 + 160 + 8192, 100, 10));
    assert!(!memory_capacity_suffices(100 + 160 + 8191, 100, 10));
    assert!(check_context_memory(1024 * 1024, 400, 60).is_ok());
    assert_eq!(
        check_context_memory(1024, 400, 60).unwrap_err(),
        "memory_capacity too small: 1024 bytes, need at least 9552 bytes (context header + class tables for 60 classes + 8192 bytes heap)"
    );
}

#[test]
fn root_slots_reuse_freed_slots() {
    let mut slots = RootsRegistry::new();
    let a = slots.insert(0x100);
    let b = slots.insert(0x200);
    assert_eq!((a, b), (RootId(0), RootId(1)));
    assert_eq!(slots.get(b), Some(0x200));
    slots.remove(a);
    assert_eq!(slots.get(a), None);
    assert_eq!(slots.insert(0x300), RootId(0));
    assert_eq!(slots.get(RootId(0)), Some(0x300));
    assert_eq!(slots.get(RootId(7)), None);
}

#[test]
fn roots_read_their_value_until_released() {
    let registry = Arc::new(SharedRootsRegistry::new());
    let root: Root<Function> = Root::register(registry.clone(), ContextId(7), 0x42).unwrap();
    assert_eq!(root.ctx_id(), ContextId(7));
    assert_eq!(root.as_raw(), 0x42);
    let traced = Traced(Root::<Function>::register(registry.clone(), ContextId(7), 0).unwrap());
    assert_eq!(traced.as_raw(), 0);
    assert!(!traced.is_some());
    let other = Root::<Function>::register(registry.clone(), ContextId(7), 0x43).unwrap();
    root.release();
    assert_eq!(other.as_raw(), 0x43);
}

#[test]
fn return_safe_keeps_value_and_context() {
    let r = ReturnSafe::<Function>::new(0x55, ContextId(3));
    assert_eq!(r.raw(), 0x55);
    assert_eq!(r.ctx_id(), ContextId(3));
}

#[test]
fn my_service_greets() {
    let mut s = DefaultMyService::new();
    assert_eq!(s.hello("World".to_string()), "Hello, World!");
    assert_eq!(s.version(), "1.0.0");
    let mut boxed = create_my_service_singleton();
    assert_eq!(boxed.hello("JS".to_string()), "Hello, JS!");
    assert_eq!(boxed.version(), "1.0.0");
}
