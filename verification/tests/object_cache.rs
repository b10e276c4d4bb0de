use llrt::cache::{self, CacheCell, CacheError, EngineOp, ResolvedGlobals};
use llrt::keys::{CacheKey, ConstructorCacheKey, FunctionCacheKey, PrototypeCacheKey};

fn globals() -> ResolvedGlobals {
    ResolvedGlobals {
        map_ctor: 101,
        set_ctor: 102,
        date_ctor: 103,
        error_ctor: 104,
        regexp_ctor: 105,
        buffer_ctor: 106,
        object_proto: 201,
        date_proto: 202,
        regexp_proto: 203,
        set_proto: 204,
        map_proto: 205,
        error_proto: 206,
        array_from_fn: 301,
        array_buffer_is_view_fn: 302,
        get_own_property_descriptor_fn: 303,
    }
}

#[test]
fn category_offsets_do_not_collide() {
    assert_eq!(PrototypeCacheKey::ObjectProto.index(), 0);
    assert_eq!(PrototypeCacheKey::ErrorProto.index(), 5);
    assert_eq!(ConstructorCacheKey::MapCtor.index(), 64);
    assert_eq!(ConstructorCacheKey::BufferCtor.index(), 69);
    assert_eq!(FunctionCacheKey::ArrayFrom.index(), 128);
    assert_eq!(FunctionCacheKey::GetOwnPropertyDescriptor.index(), 130);

    let all = [
        CacheKey::Prototype(PrototypeCacheKey::ObjectProto),
        CacheKey::Prototype(PrototypeCacheKey::DateProto),
        CacheKey::Prototype(PrototypeCacheKey::RegExpProto),
        CacheKey::Prototype(PrototypeCacheKey::SetProto),
        CacheKey::Prototype(PrototypeCacheKey::MapProto),
        CacheKey::Prototype(PrototypeCacheKey::ErrorProto),
        CacheKey::Constructor(ConstructorCacheKey::MapCtor),
        CacheKey::Constructor(ConstructorCacheKey::SetCtor),
        CacheKey::Constructor(ConstructorCacheKey::DateCtor),
        CacheKey::Constructor(ConstructorCacheKey::ErrorCtor),
        CacheKey::Constructor(ConstructorCacheKey::RegExpCtor),
        CacheKey::Constructor(ConstructorCacheKey::BufferCtor),
        CacheKey::Function(FunctionCacheKey::ArrayFrom),
        CacheKey::Function(FunctionCacheKey::ArrayBufferIsView),
        CacheKey::Function(FunctionCacheKey::GetOwnPropertyDescriptor),
    ];
    let mut seen = Vec::new();
    for key in all {
        let index = key.index();
        assert!(index < llrt::keys::SLOT_COUNT);
        assert!(!seen.contains(&index));
        seen.push(index);
    }
}

#[test]
fn init_pins_values_and_dups_the_context() {
    let mut cell = CacheCell::Uninitialized;
    let (result, ops) = cache::init(&mut cell, 7, &globals());
    assert!(result.is_ok());
    assert_eq!(ops, vec![EngineOp::DupContext(7)]);

    let cache_ref = cell.get().unwrap();
    let (handle, ops) = cache_ref.get_constructor(ConstructorCacheKey::MapCtor);
    assert_eq!(handle, 101);
    assert_eq!(ops, vec![EngineOp::DupValue(101)]);
    let (handle, _) = cache_ref.get_prototype(PrototypeCacheKey::ObjectProto);
    assert_eq!(handle, 201);
    let (handle, _) = cache_ref.get_function(FunctionCacheKey::GetOwnPropertyDescriptor);
    assert_eq!(handle, 303);
}

#[test]
fn double_init_fails_and_keeps_the_first_state() {
    let mut cell = CacheCell::Uninitialized;
    let (first, _) = cache::init(&mut cell, 7, &globals());
    assert!(first.is_ok());

    let mut other = globals();
    other.map_ctor = 999;
    let (second, ops) = cache::init(&mut cell, 8, &other);
    assert_eq!(second.unwrap_err(), CacheError::AlreadyInitialized);
    assert!(ops.is_empty());

    // A later read still sees the first initialization's values.
    let (handle, _) = cell.get().unwrap().get_constructor(ConstructorCacheKey::MapCtor);
    assert_eq!(handle, 101);
}

#[test]
fn clear_releases_every_pin_once_then_the_context() {
    let mut cell = CacheCell::Uninitialized;
    cache::init(&mut cell, 7, &globals()).0.unwrap();
    let (result, ops) = cache::clear(&mut cell);
    assert!(result.is_ok());

    // 15 pinned values, each released exactly once, the context last.
    assert_eq!(ops.len(), 16);
    assert_eq!(*ops.last().unwrap(), EngineOp::FreeContext(7));
    let mut freed: Vec<u64> = ops[..15]
        .iter()
        .map(|op| match op {
            EngineOp::FreeValue(v) => *v,
            other => panic!("unexpected op before the context release: {:?}", other),
        })
        .collect();
    freed.sort();
    assert_eq!(
        freed,
        vec![101, 102, 103, 104, 105, 106, 201, 202, 203, 204, 205, 206, 301, 302, 303]
    );
}

#[test]
fn reads_after_clear_fail_instead_of_dereferencing() {
    let mut cell = CacheCell::Uninitialized;
    cache::init(&mut cell, 7, &globals()).0.unwrap();
    cache::clear(&mut cell).0.unwrap();
    assert_eq!(cell.get().unwrap_err(), CacheError::NotInitialized);

    // A fresh cell can be initialized again and serves newly pinned values.
    let mut fresh = CacheCell::Uninitialized;
    cache::init(&mut fresh, 9, &globals()).0.unwrap();
    let (handle, ops) = fresh.get().unwrap().get_prototype(PrototypeCacheKey::MapProto);
    assert_eq!(handle, 205);
    assert_eq!(ops, vec![EngineOp::DupValue(205)]);
}

#[test]
fn clear_before_init_is_a_caller_error() {
    let mut cell = CacheCell::Uninitialized;
    let (result, ops) = cache::clear(&mut cell);
    assert_eq!(result.unwrap_err(), CacheError::NotInitialized);
    assert!(ops.is_empty());
    assert!(cell.get().is_err());
}

#[test]
fn cleared_cell_stays_cleared() {
    let mut cell = CacheCell::Uninitialized;
    cache::init(&mut cell, 7, &globals()).0.unwrap();
    cache::clear(&mut cell).0.unwrap();
    let (again, ops) = cache::clear(&mut cell);
    assert_eq!(again.unwrap_err(), CacheError::NotInitialized);
    assert!(ops.is_empty());
    let (reinit, _) = cache::init(&mut cell, 7, &globals());
    assert_eq!(reinit.unwrap_err(), CacheError::AlreadyInitialized);
}

#[test]
fn repeated_reads_return_equal_independent_handles() {
    let mut cell = CacheCell::Uninitialized;
    cache::init(&mut cell, 7, &globals()).0.unwrap();
    let cache_ref = cell.get().unwrap();
    let mut handles = Vec::new();
    for _ in 0..8 {
        let (handle, ops) = cache_ref.get_function(FunctionCacheKey::ArrayFrom);
        // Every read duplicates the pinned value for its caller, so each
        // returned handle is independently owned.
        assert_eq!(ops, vec![EngineOp::DupValue(handle)]);
        handles.push(handle);
    }
    assert!(handles.iter().all(|h| *h == 301));
}
