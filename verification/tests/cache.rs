use orphanode::cache::digest::Digest;
use orphanode::cache::key::{
    CacheKey, CanonicalFileIdentity, ConfigDigest, ContentDigest, ContextDigest, ProfileDigest,
};
use orphanode::cache::schema::CacheSchema;
use orphanode::cache::store::{
    check_cache, check_entries, check_generation_size, expired_markers, generation_name, list_generation_candidates, list_marker_targets, marker_name, open_generation, select_generation, valid_generation_name, valid_marker_name, CacheBody, CacheEntry, CacheError, CacheLimits, CacheLoadStatus, GenerationOutcome, PruneState,
};

#[test]
fn digests_are_sha_256() {
    assert_eq!(
        Digest::of_bytes(b"abc").to_hex(),
        "ba7816bf8f01cfea414140de5dae2223b00361a396177a9cb410ff61f20015ad"
    );
    assert_eq!(
        Digest::of_bytes(b"").to_hex(),
        "e3b0c44298fc1c149afbf4c8996fb92427ae41e4649b934ca495991b7852b855"
    );
    assert_eq!(
        Digest::of_bytes(b"abcdbcdecdefdefgefghfghighijhijkijkljklmklmnlmnomnopnopq").to_hex(),
        "248d6a61d20638b8e5c026930c3e6039a33ce45964ff2167f6ecedd419db06c1"
    );
}

#[test]
fn digests_are_read_back() {
    let digest = Digest::of_bytes(b"abc");

    assert_eq!(Digest::from_hex(&digest.to_hex()).unwrap(), digest);
    assert!(Digest::from_hex("abc").is_err());
    assert!(Digest::from_hex(&"g".repeat(64)).is_err());
}

#[test]
fn commits_and_loads_the_active_generation() {
    let limits = CacheLimits::default();
    let name = generation_name("1-1");
    let entries = vec![CacheEntry::new(test_key(b"one"), b"facts".to_vec())];
    assert!(check_entries(&entries, limits).is_ok());
    let body = CacheBody {
        schema: schema(),
        generation: name.clone(),
        entries,
    };
    let checksum = Digest::of_bytes(b"written");

    let read = open_generation(&body, &name, checksum, checksum, &schema(), limits).unwrap();
    let candidates =
        list_generation_candidates(&vec![name.clone()], &vec![name.clone()], limits);
    let loaded = select_generation(&candidates, vec![GenerationOutcome::Read(read)]);

    assert_eq!(loaded.generation(), Some(name));
    assert_eq!(loaded.get(&test_key(b"one")), Some(&b"facts".to_vec()));
    assert!(matches!(loaded.status, CacheLoadStatus::Active(_)));
    assert_eq!(loaded.len(), 1);
}

#[test]
fn loaded_generations_hold_what_was_committed_and_nothing_else() {
    let limits = CacheLimits::default();
    let name = generation_name("1-1");
    let body = CacheBody {
        schema: schema(),
        generation: name.clone(),
        entries: vec![
            CacheEntry::new(test_key(b"one"), b"facts".to_vec()),
            CacheEntry::new(test_key(b"two"), b"more".to_vec()),
        ],
    };
    let checksum = Digest::of_bytes(b"written");

    let read = open_generation(&body, &name, checksum, checksum, &schema(), limits).unwrap();

    assert_eq!(read.len(), 2);
    assert_eq!(read.get(&test_key(b"one")), Some(&b"facts".to_vec()));
    assert_eq!(read.get(&test_key(b"two")), Some(&b"more".to_vec()));
    assert_eq!(read.get(&test_key(b"three")), None);
}

#[test]
fn markers_behind_the_retained_generations_expire() {
    let mut limits = CacheLimits::default();
    limits.retained_generations = 2;
    let markers = ["c", "b", "a"].map(str::to_owned).to_vec();

    assert_eq!(expired_markers(&markers, limits), ["a"]);
    assert!(expired_markers(&markers[..2].to_vec(), limits).is_empty());
}

#[test]
fn recovers_the_previous_generation_after_corruption() {
    let limits = CacheLimits::default();
    let first = generation_name("1-1");
    let second = generation_name("2-1");
    let body = CacheBody {
        schema: schema(),
        generation: first.clone(),
        entries: vec![CacheEntry::new(test_key(b"first"), b"old facts".to_vec())],
    };
    let checksum = Digest::of_bytes(b"written");
    let read = open_generation(&body, &first, checksum, checksum, &schema(), limits).unwrap();

    let loaded = select_generation(
        &vec![second, first.clone()],
        vec![
            GenerationOutcome::Refused("not json".to_owned()),
            GenerationOutcome::Read(read),
        ],
    );

    assert_eq!(loaded.generation(), Some(first));
    assert_eq!(
        loaded.get(&test_key(b"first")),
        Some(&b"old facts".to_vec())
    );
    assert!(matches!(loaded.status, CacheLoadStatus::Recovered(_)));
}

#[test]
fn incompatible_generations_reset_to_an_empty_cache() {
    let limits = CacheLimits::default();
    let name = generation_name("1-1");
    let body = CacheBody {
        schema: schema(),
        generation: name.clone(),
        entries: vec![CacheEntry::new(test_key(b"one"), b"facts".to_vec())],
    };
    let checksum = Digest::of_bytes(b"written");

    let refusal = open_generation(
        &body,
        &name,
        checksum,
        checksum,
        &CacheSchema::current("0.2.0", "oxc-2"),
        limits,
    )
    .unwrap_err();
    let loaded = select_generation(&vec![name], vec![GenerationOutcome::Refused(refusal)]);

    assert!(loaded.is_empty());
    assert!(matches!(loaded.status, CacheLoadStatus::Reset(_)));
}

#[test]
fn enforces_entry_size_before_writing() {
    let limits = CacheLimits {
        max_entry_bytes: 3,
        ..CacheLimits::default()
    };

    let error = check_entries(
        &vec![CacheEntry::new(test_key(b"one"), vec![0; 4])],
        limits,
    )
    .unwrap_err();

    assert!(matches!(error, CacheError::EntryTooLarge(_)));
    assert!(error.message().contains("entry exceeds"));
}

#[test]
fn damaged_generations_are_not_used() {
    let limits = CacheLimits::default();
    let name = generation_name("1-1");
    let body = CacheBody {
        schema: schema(),
        generation: name.clone(),
        entries: Vec::new(),
    };
    let checksum = Digest::of_bytes(b"written");
    let other = Digest::of_bytes(b"other");

    assert!(open_generation(&body, &name, checksum, other, &schema(), limits)
        .unwrap_err()
        .contains("checksum"));
    assert!(
        open_generation(&body, "other", checksum, checksum, &schema(), limits)
            .unwrap_err()
            .contains("identity")
    );
}

#[test]
fn repeated_keys_and_too_many_entries_are_refused() {
    let twice = vec![
        CacheEntry::new(test_key(b"one"), Vec::new()),
        CacheEntry::new(test_key(b"one"), Vec::new()),
    ];
    let limits = CacheLimits {
        max_entries: 1,
        ..CacheLimits::default()
    };

    assert!(matches!(
        check_entries(&twice, CacheLimits::default()),
        Err(CacheError::DuplicateKey)
    ));
    assert!(matches!(
        check_entries(
            &vec![
                CacheEntry::new(test_key(b"one"), Vec::new()),
                CacheEntry::new(test_key(b"two"), Vec::new()),
            ],
            limits,
        ),
        Err(CacheError::TooManyEntries(_))
    ));
    assert!(matches!(
        check_generation_size(
            2,
            CacheLimits {
                max_generation_bytes: 1,
                ..CacheLimits::default()
            }
        ),
        Err(CacheError::GenerationTooLarge(_))
    ));
}

#[test]
fn limits_and_schemas_are_checked() {
    assert!(CacheLimits::default().validate().is_ok());
    assert!(matches!(
        CacheLimits {
            max_entries: 0,
            ..CacheLimits::default()
        }
        .validate(),
        Err(CacheError::InvalidLimits)
    ));
    assert!(check_cache(&schema(), CacheLimits::default()).is_ok());
    assert!(matches!(
        check_cache(&CacheSchema::current("", "oxc-1"), CacheLimits::default()),
        Err(CacheError::InvalidSchema(_))
    ));
}

#[test]
fn names_of_generations_lead_to_markers_and_back() {
    let name = generation_name("1-1");
    let marker = marker_name(&name).expect("marker");

    assert!(valid_generation_name(&name));
    assert!(valid_marker_name(&marker));
    assert!(!valid_generation_name("../generation"));
    assert_eq!(marker_name("other"), None);
    assert_eq!(
        list_marker_targets(&vec![format!("{name}\n"), "../x".to_owned()]),
        [name]
    );
}

#[test]
fn old_generations_are_removed() {
    let limits = CacheLimits {
        retained_generations: 1,
        ..CacheLimits::default()
    };
    let state = PruneState {
        retained: 2,
        total_bytes: 10,
    };

    assert!(state.should_remove("old", "active", limits));
    assert!(!state.should_remove("active", "active", limits));
    let after = state.without(4);
    assert_eq!(after.total_bytes, 6);
    assert!(!after.should_remove("old", "active", limits));
}

#[test]
fn keys_tell_contexts_apart() {
    let first = ContextDigest::of_bytes(b"a");
    let second = ContextDigest::of_bytes(b"b");

    assert_ne!(key_with(vec![first]), key_with(vec![second]));
    assert_eq!(key_with(vec![first]), key_with(vec![first]));
    assert!(key_with(vec![first]).validate().is_ok());
    assert!(CanonicalFileIdentity::new("../src").is_err());
}

fn schema() -> CacheSchema {
    CacheSchema::current("0.1.0", "oxc-1")
}

fn key_with(contexts: Vec<ContextDigest>) -> CacheKey {
    CacheKey::new(
        ConfigDigest::of_bytes(b"config"),
        ProfileDigest::of_bytes(b"node"),
        CanonicalFileIdentity::new("src/index.ts").unwrap(),
        ContentDigest::of_bytes(b"source"),
        contexts,
    )
}

fn test_key(source: &[u8]) -> CacheKey {
    CacheKey::new(
        ConfigDigest::of_bytes(b"config"),
        ProfileDigest::of_bytes(b"node"),
        CanonicalFileIdentity::new("src/index.ts").unwrap(),
        ContentDigest::of_bytes(source),
        Vec::new(),
    )
}
