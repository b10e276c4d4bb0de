use llrt::codec::{self, FormatError};
use llrt::collector::{self, BuildConfig, BuildError, ModuleEntry};
use llrt::compiler;
use llrt::compression;
use llrt::registry::{Registry, RegistryEntry};

fn cfg_default() -> BuildConfig {
    BuildConfig { no_sdk: false, single_target: false }
}

#[test]
fn round_trip_uncompressed() {
    let payload = vec![1u8, 2, 3, 4, 5];
    let bytes = codec::encode(&payload, false, None);
    let decoded = codec::decode(&bytes).unwrap();
    assert!(!decoded.compressed);
    assert_eq!(decoded.original_size, None);
    assert_eq!(decoded.payload, payload);
}

#[test]
fn round_trip_compressed() {
    let payload = vec![9u8, 8, 7];
    let bytes = codec::encode(&payload, true, Some(1000));
    let decoded = codec::decode(&bytes).unwrap();
    assert!(decoded.compressed);
    assert_eq!(decoded.original_size, Some(1000));
    assert_eq!(decoded.payload, payload);
}

#[test]
fn container_byte_layout_exact() {
    // 258 = 0x0102 little-endian -> 02 01 00 00
    let bytes = codec::encode(&[0xAAu8], true, Some(258));
    assert_eq!(bytes, vec![0x42, 0x43, 0x30, 0x31, 0x01, 0x02, 0x01, 0x00, 0x00, 0xAA]);
    let bytes = codec::encode(&[0xBBu8], false, None);
    assert_eq!(bytes, vec![0x42, 0x43, 0x30, 0x31, 0x00, 0xBB]);
}

#[test]
fn version_gate_rejects_unknown_tag() {
    let mut bytes = codec::encode(&[1u8, 2, 3], false, None);
    bytes[0] = 0x58;
    bytes[1] = 0x58;
    bytes[2] = 0x58;
    bytes[3] = 0x58;
    assert_eq!(codec::decode(&bytes).unwrap_err(), FormatError::VersionMismatch);
    // A single altered tag byte is enough to be turned away.
    let mut bytes = codec::encode(&[1u8, 2, 3], true, Some(3));
    bytes[3] = 0x30;
    assert_eq!(codec::decode(&bytes).unwrap_err(), FormatError::VersionMismatch);
}

#[test]
fn decode_rejects_short_buffers() {
    assert_eq!(codec::decode(&[]).unwrap_err(), FormatError::TooShort);
    assert_eq!(codec::decode(&[0x42, 0x43]).unwrap_err(), FormatError::TooShort);
    // Tag alone, no flag byte.
    assert_eq!(
        codec::decode(&[0x42, 0x43, 0x30, 0x31]).unwrap_err(),
        FormatError::TooShort
    );
    // Compressed flag but a truncated size field.
    assert_eq!(
        codec::decode(&[0x42, 0x43, 0x30, 0x31, 0x01, 0x07]).unwrap_err(),
        FormatError::TooShort
    );
}

#[test]
fn decode_rejects_unknown_flag() {
    assert_eq!(
        codec::decode(&[0x42, 0x43, 0x30, 0x31, 0x02, 0x00]).unwrap_err(),
        FormatError::InvalidFlag
    );
}

#[test]
fn module_names_drop_extension() {
    let entries = collector::collect_modules(
        &vec![b"foo/bar.js".to_vec(), b"baz.js".to_vec()],
        cfg_default(),
    );
    assert_eq!(entries.len(), 2);
    assert_eq!(entries[0].name, b"foo/bar".to_vec());
    assert_eq!(entries[1].name, b"baz".to_vec());
}

#[test]
fn chunk_entries_keep_full_path() {
    let entries = collector::collect_modules(
        &vec![b"llrt-chunk-vendor.js".to_vec()],
        cfg_default(),
    );
    assert_eq!(entries.len(), 1);
    assert_eq!(entries[0].name, b"llrt-chunk-vendor.js".to_vec());
}

#[test]
fn collector_filters_tests_and_foreign_extensions() {
    let entries = collector::collect_modules(
        &vec![
            b"__tests__/unit.js".to_vec(),
            b"readme.md".to_vec(),
            b"lib/.js".to_vec(),
            b"app.js".to_vec(),
        ],
        cfg_default(),
    );
    assert_eq!(entries.len(), 1);
    assert_eq!(entries[0].path, b"app.js".to_vec());
}

#[test]
fn collector_honours_build_toggles() {
    let paths = vec![
        b"@aws-sdk/client.js".to_vec(),
        b"@smithy/core.js".to_vec(),
        b"llrt-chunk-sdk-1.js".to_vec(),
        b"@llrt/test.js".to_vec(),
        b"main.js".to_vec(),
    ];
    let all = collector::collect_modules(&paths, cfg_default());
    assert_eq!(all.len(), 5);

    let no_sdk = collector::collect_modules(
        &paths,
        BuildConfig { no_sdk: true, single_target: false },
    );
    let names: Vec<Vec<u8>> = no_sdk.iter().map(|e| e.name.clone()).collect();
    assert_eq!(names, vec![b"@llrt/test".to_vec(), b"main".to_vec()]);

    let single = collector::collect_modules(
        &paths,
        BuildConfig { no_sdk: false, single_target: true },
    );
    assert_eq!(single.len(), 4);
    assert!(single.iter().all(|e| e.path != b"@llrt/test.js".to_vec()));
}

#[test]
fn duplicate_module_names_fail_the_build() {
    let entries = vec![
        ModuleEntry { path: b"one/mod.js".to_vec(), name: b"shared".to_vec() },
        ModuleEntry { path: b"two/mod.js".to_vec(), name: b"shared".to_vec() },
    ];
    match collector::check_unique_names(&entries) {
        Err(BuildError::DuplicateName { name }) => assert_eq!(name, b"shared".to_vec()),
        _ => panic!("collision was not rejected"),
    }
    let unique = vec![
        ModuleEntry { path: b"one/mod.js".to_vec(), name: b"one/mod".to_vec() },
        ModuleEntry { path: b"two/mod.js".to_vec(), name: b"two/mod".to_vec() },
    ];
    assert!(collector::check_unique_names(&unique).is_ok());
}

#[test]
fn small_corpus_trains_on_large_blobs_only() {
    // 3 modules, one below the 1 KiB threshold: it is left out of training
    // but still compressed and emitted as a container.
    let sizes = vec![2048usize, 512, 4096];
    let plan = compression::plan_training(&sizes);
    assert!(plan.small_blocks);
    assert_eq!(plan.training_indices, vec![0usize, 2]);

    let originals = vec![vec![1u8; 2048], vec![2u8; 512], vec![3u8; 4096]];
    let compressed = vec![vec![4u8; 100], vec![5u8; 60], vec![6u8; 200]];
    let containers = compression::wrap_all_compressed(&originals, &compressed).unwrap();
    assert_eq!(containers.len(), 3);
    let small = codec::decode(&containers[1]).unwrap();
    assert!(small.compressed);
    assert_eq!(small.original_size, Some(512));
    assert_eq!(small.payload, vec![5u8; 60]);
}

#[test]
fn large_corpus_trains_on_everything() {
    let sizes = vec![10usize, 20, 30, 40, 50];
    let plan = compression::plan_training(&sizes);
    assert!(!plan.small_blocks);
    assert_eq!(plan.training_indices, vec![0usize, 1, 2, 3, 4]);
}

#[test]
fn compressed_container_records_exact_original_size() {
    let original = vec![7u8; 3000];
    let compressed = vec![1u8, 2, 3];
    let container = compression::wrap_compressed(&original, &compressed);
    let decoded = codec::decode(&container).unwrap();
    assert_eq!(decoded.original_size, Some(3000));
    assert_eq!(decoded.payload, compressed);
}

#[test]
fn uncompressed_toggle_bypasses_compression() {
    let blob = vec![1u8, 2, 3];
    let container = compression::wrap_uncompressed(&blob);
    let decoded = codec::decode(&container).unwrap();
    assert!(!decoded.compressed);
    assert_eq!(decoded.payload, blob);
}

#[test]
fn consolidation_is_all_or_nothing() {
    let entries = vec![
        ModuleEntry { path: b"a.js".to_vec(), name: b"a".to_vec() },
        ModuleEntry { path: b"b.js".to_vec(), name: b"b".to_vec() },
    ];
    let ok: Vec<Result<Vec<u8>, Vec<u8>>> = vec![Ok(vec![1u8]), Ok(vec![2u8, 3])];
    let blobs = compiler::consolidate_compiled(&entries, &ok).unwrap();
    assert_eq!(blobs, vec![vec![1u8], vec![2u8, 3]]);

    let failing: Vec<Result<Vec<u8>, Vec<u8>>> =
        vec![Ok(vec![1u8]), Err(b"SyntaxError: unexpected token".to_vec())];
    match compiler::consolidate_compiled(&entries, &failing) {
        Err(BuildError::Compile { name, message }) => {
            assert_eq!(name, b"b".to_vec());
            assert_eq!(message, b"SyntaxError: unexpected token".to_vec());
        },
        _ => panic!("compile failure was not consolidated"),
    }
}

#[test]
fn total_compiled_size_is_the_sum() {
    let blobs = vec![vec![0u8; 10], vec![0u8; 0], vec![0u8; 7]];
    assert_eq!(compiler::total_compiled_size(&blobs), Some(17));
}

#[test]
fn registry_lookup_hits_and_misses() {
    let entries = vec![
        RegistryEntry { name: b"main".to_vec(), bytes: vec![1u8, 2] },
        RegistryEntry { name: b"util".to_vec(), bytes: vec![3u8] },
    ];
    let registry = Registry::build(entries).unwrap();
    assert_eq!(registry.len(), 2);
    assert_eq!(registry.lookup(b"main"), Some(&vec![1u8, 2]));
    assert_eq!(registry.lookup(b"util"), Some(&vec![3u8]));
    assert_eq!(registry.lookup(b"missing"), None);
}

#[test]
fn registry_rejects_duplicate_names() {
    let entries = vec![
        RegistryEntry { name: b"dup".to_vec(), bytes: vec![1u8] },
        RegistryEntry { name: b"dup".to_vec(), bytes: vec![2u8] },
    ];
    match Registry::build(entries) {
        Err(BuildError::DuplicateName { name }) => assert_eq!(name, b"dup".to_vec()),
        _ => panic!("duplicate registry entry was not rejected"),
    }
}

#[test]
fn training_plan_constants() {
    assert_eq!(compression::MAX_DICT_SIZE, 20480);
    assert_eq!(compression::SMALL_CORPUS_THRESHOLD, 5);
    assert_eq!(compression::MIN_TRAINING_SIZE, 1024);
}

#[test]
fn empty_payload_round_trips() {
    let bytes = codec::encode(&[], true, Some(0));
    assert_eq!(bytes.len(), 9);
    let decoded = codec::decode(&bytes).unwrap();
    assert!(decoded.compressed);
    assert_eq!(decoded.original_size, Some(0));
    assert!(decoded.payload.is_empty());
}

#[test]
fn empty_tree_collects_nothing() {
    let entries = collector::collect_modules(&Vec::new(), cfg_default());
    assert!(entries.is_empty());
    assert!(collector::check_unique_names(&entries).is_ok());
}

#[test]
fn empty_corpus_has_an_empty_training_set() {
    let plan = compression::plan_training(&Vec::new());
    assert!(plan.small_blocks);
    assert!(plan.training_indices.is_empty());
}

#[test]
fn tests_marker_must_be_a_leading_segment() {
    let entries = collector::collect_modules(
        &vec![
            b"__tests__/skip.js".to_vec(),
            b"nested/__tests__/keep.js".to_vec(),
        ],
        cfg_default(),
    );
    assert_eq!(entries.len(), 1);
    assert_eq!(entries[0].name, b"nested/__tests__/keep".to_vec());
}

#[test]
fn empty_registry_misses_everything() {
    let registry = Registry::build(Vec::new()).unwrap();
    assert_eq!(registry.len(), 0);
    assert_eq!(registry.lookup(b"anything"), None);
}
