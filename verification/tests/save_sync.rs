use kakera::error::{IoErrorKind, IoFailure};
use kakera::hashing::{content_hash, ContentHasher};
use kakera::models::SaveLocation;
use kakera::paths::{normalize_relative_path, path_from_manifest, LocalPath, PathComponent};
use kakera::save_sync::{
    destination_path_for_snapshot_file, discover_location_files, fingerprint_from, fingerprint_of, inspect_restore_destination,
    inspect_save_locations, location_for_restore, plan_snapshot_restore, verified_blob_path, DiscoveredSaveFile,
    FileFingerprint, LocationMetadata, LocationScan, PathObservation, PathState, ResolvedLocation,
    RestoreDestinationState, RestorePlanError, RestoreSnapshotRequest, SaveLocationState, SnapshotFile,
    SnapshotManifest, WalkEntry, SNAPSHOT_FORMAT_VERSION, DirectoryWalk, EntryKind, ListedEntry,
};

fn path(text: &str) -> LocalPath {
    let mut components = Vec::new();
    if text.starts_with('/') {
        components.push(PathComponent::RootDir);
    }
    for part in text.split('/') {
        match part {
            "" | "." => {}
            ".." => components.push(PathComponent::ParentDir),
            name => components.push(PathComponent::Normal(name.to_string())),
        }
    }
    LocalPath { components }
}

fn location(id: &str, path_text: &str, label: &str) -> SaveLocation {
    SaveLocation { id: id.to_string(), path: path_text.to_string(), label: label.to_string() }
}

fn not_found() -> IoFailure {
    IoFailure { kind: IoErrorKind::NotFound, message: "No such file or directory (os error 2)".to_string() }
}

#[test]
fn validates_portable_manifest_paths() {
    let nested_path = path_from_manifest("slot-1/save.dat".to_string()).expect("A safe nested path should be accepted");

    assert_eq!(nested_path, Some(vec!["slot-1".to_string(), "save.dat".to_string()]));

    let direct_file = path_from_manifest(String::new()).expect("an empty path should represent a direct save file");

    assert_eq!(direct_file, None);

    for unsafe_path in [
        "../private.dat",
        "slot/../../private.dat",
        "/absolute/save.dat",
        "slot\\..\\private.dat",
        "slot//save.dat",
        "slot/",
        "C:/Windows/save.dat",
    ] {
        let result = path_from_manifest(unsafe_path.to_string());

        assert!(result.is_err(), "unsafe path should be rejected: {unsafe_path}");
    }
}

#[test]
fn manifest_path_errors_name_the_unsafe_part() {
    let whole = path_from_manifest("/absolute/save.dat".to_string()).unwrap_err();
    assert_eq!(whole.kind, IoErrorKind::InvalidData);
    assert_eq!(whole.message, "Manifest contains an unsafe save path");

    let part = path_from_manifest("slot/../save.dat".to_string()).unwrap_err();
    assert_eq!(part.kind, IoErrorKind::InvalidData);
    assert_eq!(part.message, "Manifest contains an unsafe path component");
}

#[test]
fn inspects_common_save_location_types() {
    let statuses = inspect_save_locations(vec![
        (location("save-file", "/tmp/kakera-save-inspection/save.dat", "Save file"), LocationMetadata::File),
        (location("save-directory", "/tmp/kakera-save-inspection/slots", "Save directory"), LocationMetadata::Directory),
        (location("missing-save", "/tmp/kakera-save-inspection/missing", "Missing save"), LocationMetadata::Failed(not_found())),
    ]);

    assert_eq!(statuses[0].state, SaveLocationState::File);
    assert_eq!(statuses[1].state, SaveLocationState::Directory);
    assert_eq!(statuses[2].state, SaveLocationState::Missing);
    assert_eq!(statuses[1].location.id, "save-directory");
}

#[test]
fn unreadable_and_unsupported_locations_are_told_apart() {
    let denied = IoFailure { kind: IoErrorKind::PermissionDenied, message: "Permission denied".to_string() };
    let statuses = inspect_save_locations(vec![
        (location("a", "/a", "A"), LocationMetadata::Failed(denied)),
        (location("b", "/b", "B"), LocationMetadata::Other),
    ]);

    assert_eq!(statuses[0].state, SaveLocationState::Unreadable("Permission denied".to_string()));
    assert_eq!(statuses[1].state, SaveLocationState::Unsupported);
}

#[test]
fn hashes_file_contents_deterministically() {
    let first_contents = b"first save contents";

    let first_hash = fingerprint_of(first_contents);
    let repeated_hash = fingerprint_of(first_contents);

    assert_eq!(first_hash, repeated_hash);
    assert_eq!(first_hash.size_bytes, first_contents.len() as u64);

    let changed_hash = fingerprint_of(b"changed save contents");

    assert_ne!(first_hash.content_hash, changed_hash.content_hash);
}

#[test]
fn fingerprint_of_empty_contents_is_the_blake3_of_nothing() {
    let empty = fingerprint_of(b"");

    assert_eq!(empty.size_bytes, 0);
    assert_eq!(empty.content_hash, "af1349b9f5f9a1a6a0404dea36dcc9499bcb25c9adc112b7cc9a93cae41f3262");
}

#[test]
fn hashing_in_chunks_gives_the_fingerprint_of_the_whole() {
    let mut hasher = ContentHasher::new();
    hasher.update(b"a");
    hasher.update(b"");
    hasher.update(b"bc");
    assert_eq!(hasher.size_bytes(), 3);
    assert_eq!(hasher.hex_digest(), "6437b3ac38465133ffb63b75273a8db548c558465d79db03fd359c6cd5bd9d85");
    assert_eq!(fingerprint_from(&hasher), fingerprint_of(b"abc"));
    assert_eq!(content_hash(b"abc"), "6437b3ac38465133ffb63b75273a8db548c558465d79db03fd359c6cd5bd9d85");
}

#[test]
fn accepted_manifest_paths_are_written_back_unchanged() {
    for text in ["slot-1/save.dat", "a b/c.d/é", "save.dat", ""] {
        let names = path_from_manifest(text.to_string()).unwrap().unwrap_or_default();
        let local = LocalPath { components: names.into_iter().map(PathComponent::Normal).collect() };
        assert_eq!(normalize_relative_path(&local).unwrap(), text);
    }
}

#[test]
fn normalizes_safe_paths_and_rejects_traversal() {
    let nested_path = path("slot1/save.dat");

    let normalized = normalize_relative_path(&nested_path).expect("A normal relative save path should be accepted");

    assert_eq!(normalized, "slot1/save.dat");

    let traversal_result = normalize_relative_path(&path("../private.dat"));

    assert!(traversal_result.is_err());

    let absolute_result = normalize_relative_path(&path("/tmp/outside-save.dat"));

    assert!(absolute_result.is_err());
}

#[test]
fn non_unicode_save_paths_are_rejected() {
    let odd = LocalPath { components: vec![PathComponent::Normal("slot".to_string()), PathComponent::NonUnicode] };
    let error = normalize_relative_path(&odd).unwrap_err();

    assert_eq!(error.kind, IoErrorKind::InvalidData);
    assert_eq!(error.message, "Save path contains non UTF-8 text");
}

#[test]
fn collects_nested_directory_files_in_stable_order() {
    let root = path("/tmp/kakera-save-collection");
    let walk = vec![
        WalkEntry::File { relative: path("slot-b/save2.dat"), source: path("/tmp/kakera-save-collection/slot-b/save2.dat") },
        WalkEntry::File { relative: path("slot-a/save1.dat"), source: path("/tmp/kakera-save-collection/slot-a/save1.dat") },
    ];

    let files = discover_location_files(&location("main-saves", "/tmp/kakera-save-collection", "Main saves"), &root, LocationScan::Directory(walk))
        .expect("The save directory should be collected");

    assert_eq!(files.len(), 2);
    assert_eq!(files[0].relative_path, "slot-a/save1.dat");
    assert_eq!(files[1].relative_path, "slot-b/save2.dat");
    assert_eq!(files[0].location_id, "main-saves");
    assert_eq!(files[1].location_id, "main-saves");
}

#[test]
fn files_with_the_same_relative_path_keep_their_walk_order() {
    let root = path("/saves");
    let walk = vec![
        WalkEntry::File { relative: path("b.dat"), source: path("/saves/b.dat") },
        WalkEntry::File { relative: path("a.dat"), source: path("/first/a.dat") },
        WalkEntry::File { relative: path("a.dat"), source: path("/second/a.dat") },
    ];
    let files = discover_location_files(&location("main-saves", "/saves", "Main saves"), &root, LocationScan::Directory(walk)).unwrap();
    let sources: Vec<LocalPath> = files.into_iter().map(|f| f.source_path).collect();
    assert_eq!(sources, vec![path("/first/a.dat"), path("/second/a.dat"), path("/saves/b.dat")]);
}

#[test]
fn symbolic_links_inside_a_save_directory_are_passed_over() {
    let root = path("/saves/main");
    let mut walk = DirectoryWalk::new(root.clone());
    let mut listings = vec![
        vec![
            Ok(ListedEntry { path: path("/saves/main/real.dat"), kind: EntryKind::File }),
            Ok(ListedEntry { path: path("/saves/main/linked.dat"), kind: EntryKind::Symlink }),
            Ok(ListedEntry { path: path("/saves/main/linked-dir"), kind: EntryKind::Symlink }),
            Ok(ListedEntry { path: path("/saves/main/slot"), kind: EntryKind::Directory }),
            Ok(ListedEntry { path: path("/saves/main/fifo"), kind: EntryKind::Other }),
        ],
        vec![Ok(ListedEntry { path: path("/saves/main/slot/a.dat"), kind: EntryKind::File })],
    ]
    .into_iter();
    let mut listed = Vec::new();
    while let Some(directory) = walk.next_directory() {
        listed.push(directory);
        walk.take_listing(&listings.next().unwrap());
    }
    assert_eq!(listed, vec![root.clone(), path("/saves/main/slot")]);

    let files = discover_location_files(&location("main-saves", "/saves/main", "Main saves"), &root, LocationScan::Directory(walk.entries))
        .unwrap();
    let relative: Vec<String> = files.into_iter().map(|f| f.relative_path).collect();
    assert_eq!(relative, vec!["real.dat".to_string(), "slot/a.dat".to_string()]);

    let mut outside = DirectoryWalk::new(root);
    outside.next_directory();
    outside.take_listing(&vec![Ok(ListedEntry { path: path("/elsewhere/x.dat"), kind: EntryKind::File })]);
    assert_eq!(outside.entries, vec![WalkEntry::Failed(IoFailure { kind: IoErrorKind::InvalidData, message: "prefix not found".to_string() })]);
}

#[test]
fn refuses_to_follow_symbolic_links() {
    let linked_root_result = discover_location_files(
        &location("linked-saves", "/tmp/kakera-save-symlink/linked-saves", "Linked saves"),
        &path("/tmp/kakera-save-symlink/linked-saves"),
        LocationScan::Symlink,
    );

    let error = linked_root_result.unwrap_err();
    assert_eq!(error.kind, IoErrorKind::InvalidInput);
    assert_eq!(error.message, "Save locations cannot be symbolic links");
}

#[test]
fn a_save_file_location_is_one_file_with_an_empty_relative_path() {
    let root = path("/home/me/game/save.dat");
    let files = discover_location_files(&location("direct", "/home/me/game/save.dat", "Direct"), &root, LocationScan::File).unwrap();

    assert_eq!(
        files,
        vec![DiscoveredSaveFile { location_id: "direct".to_string(), relative_path: String::new(), source_path: root.clone() }]
    );
}

#[test]
fn a_blank_location_id_is_refused() {
    let error = discover_location_files(&location("  ", "/x", "X"), &path("/x"), LocationScan::File).unwrap_err();

    assert_eq!(error.kind, IoErrorKind::InvalidInput);
    assert_eq!(error.message, "Save locations require a stable ID");
}

#[test]
fn a_walk_failure_stops_discovery() {
    let walk = vec![
        WalkEntry::File { relative: path("a.dat"), source: path("/s/a.dat") },
        WalkEntry::Failed(IoFailure { kind: IoErrorKind::PermissionDenied, message: "denied".to_string() }),
    ];
    let error = discover_location_files(&location("s", "/s", "S"), &path("/s"), LocationScan::Directory(walk)).unwrap_err();

    assert_eq!(error.kind, IoErrorKind::PermissionDenied);
    assert_eq!(error.message, "denied");
}

fn snapshot_file(relative_path: &str, contents: &[u8]) -> SnapshotFile {
    let fingerprint = fingerprint_of(contents);
    SnapshotFile {
        location_id: "main-saves".to_string(),
        relative_path: relative_path.to_string(),
        size_bytes: fingerprint.size_bytes,
        content_hash: fingerprint.content_hash,
    }
}

fn blob_path(blob_directory: &str, file: &SnapshotFile) -> LocalPath {
    path(&format!("{}/{}.blob", blob_directory, file.content_hash))
}

#[test]
fn verifies_blobs_before_restore() {
    let blob_directory = path("/tmp/kakera-restore/blobs");
    let file = snapshot_file("save.dat", b"valid save contents");
    let stored = blob_path("/tmp/kakera-restore/blobs", &file);

    let intact = vec![PathObservation { path: stored.clone(), state: PathState::File(Ok(fingerprint_of(b"valid save contents"))) }];
    let verified_path = verified_blob_path(&file, &blob_directory, &intact).expect("the unchanged blob should pass verification");

    assert_eq!(verified_path, stored);

    let corrupted = vec![PathObservation { path: stored.clone(), state: PathState::File(Ok(fingerprint_of(b"corrupted contents"))) }];
    let corrupted_result = verified_blob_path(&file, &blob_directory, &corrupted);

    let error = corrupted_result.unwrap_err();
    assert_eq!(error.message, "Snapshot blob failed integrity verification");

    let unsafe_file = SnapshotFile { content_hash: "../../outside-the-blob-store".to_string(), ..file };
    let unsafe_result = verified_blob_path(&unsafe_file, &blob_directory, &intact);

    assert_eq!(unsafe_result.unwrap_err().message, "Snapshot contains an invalid blob hash");
}

#[test]
fn upper_case_blob_hashes_are_not_canonical() {
    let file = snapshot_file("save.dat", b"x");
    let shouting = SnapshotFile { content_hash: file.content_hash.to_uppercase(), ..file };
    let error = verified_blob_path(&shouting, &path("/b"), &Vec::new()).unwrap_err();

    assert_eq!(error.message, "Snapshot contains a non canonical blob hash");
}

#[test]
fn classifies_restore_destination_states() {
    let expected_contents = b"snapshot save contents";
    let file = snapshot_file("destination.dat", expected_contents);
    let destination = path("/tmp/kakera-restore-destination/destination.dat");

    let missing = vec![PathObservation { path: destination.clone(), state: PathState::Failed(not_found()) }];
    let missing_state = inspect_restore_destination(&destination, &file, &missing).expect("a missing destination should be inspected");

    assert_eq!(missing_state, RestoreDestinationState::Missing);

    let identical = vec![PathObservation { path: destination.clone(), state: PathState::File(Ok(fingerprint_of(expected_contents))) }];
    let identical_state = inspect_restore_destination(&destination, &file, &identical).expect("the identical destination should be inspected");

    assert_eq!(identical_state, RestoreDestinationState::Identical);

    let newer = fingerprint_of(b"newer live save contents");
    let different = vec![PathObservation { path: destination.clone(), state: PathState::File(Ok(newer.clone())) }];
    let different_state = inspect_restore_destination(&destination, &file, &different).expect("the different destination should be inspected");

    match different_state {
        RestoreDestinationState::Different(current_fingerprint) => {
            assert_ne!(current_fingerprint.content_hash, file.content_hash);
            assert_eq!(current_fingerprint, newer);
        }
        other_state => {
            panic!("expected a different destination, got {other_state:?}");
        }
    }
}

#[test]
fn a_symbolic_link_cannot_be_a_restore_destination() {
    let file = snapshot_file("d.dat", b"d");
    let destination = path("/d.dat");
    let link = vec![PathObservation { path: destination.clone(), state: PathState::Symlink }];

    assert_eq!(
        inspect_restore_destination(&destination, &file, &link).unwrap_err().message,
        "A restore destination cannot be a symbolic link"
    );
}

fn restore_location(id: &str, path_text: &str) -> ResolvedLocation {
    ResolvedLocation { location: location(id, path_text, "Main saves"), root: path(path_text) }
}

#[test]
fn restore_destinations_follow_the_location_kind() {
    let nested = snapshot_file("slot-1/progress.dat", b"progress");
    let locations = vec![restore_location("main-saves", "/restored-saves")];
    let directory = vec![PathObservation { path: path("/restored-saves"), state: PathState::Directory }];

    assert_eq!(
        destination_path_for_snapshot_file(&nested, &locations, &directory).unwrap(),
        path("/restored-saves/slot-1/progress.dat")
    );

    let direct = snapshot_file("", b"progress");
    let file_location = vec![PathObservation { path: path("/restored-saves"), state: PathState::File(Ok(fingerprint_of(b"old"))) }];

    assert_eq!(destination_path_for_snapshot_file(&direct, &locations, &file_location).unwrap(), path("/restored-saves"));
    assert_eq!(
        destination_path_for_snapshot_file(&direct, &locations, &directory).unwrap_err().message,
        "A direct save location points to a directory"
    );
}

#[test]
fn restore_needs_exactly_one_matching_location() {
    let file = snapshot_file("save.dat", b"s");
    let none: Vec<SaveLocation> = Vec::new();
    let missing = location_for_restore("main-saves".to_string(), &none).unwrap_err();

    assert_eq!(missing.kind, IoErrorKind::NotFound);
    assert_eq!(missing.message, "No configured save location matches main-saves");

    let twice = vec![location("main-saves", "/a", "A"), location("main-saves", "/b", "B")];
    let duplicate = location_for_restore("main-saves".to_string(), &twice).unwrap_err();

    assert_eq!(duplicate.kind, IoErrorKind::InvalidInput);
    assert_eq!(duplicate.message, "Multiple save locations use the ID main-saves");

    let once = vec![location("other", "/o", "O"), location("main-saves", "/a", "A")];
    assert_eq!(location_for_restore(file.location_id.clone(), &once).unwrap().path, "/a");
}

fn manifest_with(files: Vec<SnapshotFile>, identity: &[u8]) -> SnapshotManifest {
    SnapshotManifest {
        format_version: SNAPSHOT_FORMAT_VERSION,
        snapshot_id: content_hash(identity),
        vn_sync_id: "vn-restore-test".to_string(),
        device_id: "source-device".to_string(),
        created_at: "2026-07-23T12:00:00+00:00".to_string(),
        parent_snapshot_id: None,
        files,
    }
}

#[test]
fn plans_snapshot_restore_without_writing_live_files() {
    let identity = b"identity of the source snapshot";
    let progress = snapshot_file("slot-1/progress.dat", b"progress");
    let settings = snapshot_file("settings.dat", b"settings");
    let manifest = manifest_with(vec![progress.clone(), settings.clone()], identity);

    let mut observations = vec![PathObservation { path: path("/test/restored-saves"), state: PathState::Failed(not_found()) }];
    for (file, contents) in [(&progress, &b"progress"[..]), (&settings, &b"settings"[..])] {
        observations.push(PathObservation {
            path: blob_path("/test/snapshot-store/blobs", file),
            state: PathState::File(Ok(fingerprint_of(contents))),
        });
    }
    observations.push(PathObservation { path: path("/test/restored-saves/settings.dat"), state: PathState::Failed(not_found()) });
    observations.push(PathObservation { path: path("/test/restored-saves/slot-1/progress.dat"), state: PathState::Failed(not_found()) });

    let plan = plan_snapshot_restore(
        RestoreSnapshotRequest {
            manifest,
            locations: vec![restore_location("main-saves", "/test/restored-saves")],
            storage_directory: path("/test/snapshot-store"),
        },
        identity,
        &observations,
    )
    .expect("the restore plan should be created");

    assert_eq!(plan.files.len(), 2);
    assert_eq!(plan.files[0].destination_path, path("/test/restored-saves/settings.dat"));
    assert_eq!(plan.files[1].destination_path, path("/test/restored-saves/slot-1/progress.dat"));
    assert_eq!(plan.snapshot_id, content_hash(identity));

    for planned_file in &plan.files {
        assert_eq!(planned_file.destination_state, RestoreDestinationState::Missing);
    }
}

#[test]
fn an_untouched_snapshot_restores_as_identical() {
    let identity = b"identity of the source snapshot";
    let progress = snapshot_file("slot-1/progress.dat", b"progress");
    let settings = snapshot_file("settings.dat", b"settings");
    let manifest = manifest_with(vec![progress.clone(), settings.clone()], identity);

    let mut observations = vec![PathObservation { path: path("/test/live-saves"), state: PathState::Directory }];
    for (file, contents, live) in [
        (&progress, &b"progress"[..], "/test/live-saves/slot-1/progress.dat"),
        (&settings, &b"settings"[..], "/test/live-saves/settings.dat"),
    ] {
        observations.push(PathObservation { path: blob_path("/test/snapshot-store/blobs", file), state: PathState::File(Ok(fingerprint_of(contents))) });
        observations.push(PathObservation { path: path(live), state: PathState::File(Ok(fingerprint_of(contents))) });
    }
    let plan = plan_snapshot_restore(
        RestoreSnapshotRequest {
            manifest,
            locations: vec![restore_location("main-saves", "/test/live-saves")],
            storage_directory: path("/test/snapshot-store"),
        },
        identity,
        &observations,
    )
    .unwrap();
    assert_eq!(plan.snapshot_id, content_hash(identity));
    assert_eq!(plan.files.len(), 2);
    assert!(plan.files.iter().all(|file| file.destination_state == RestoreDestinationState::Identical));
}

#[test]
fn a_manifest_with_a_forged_id_is_not_restored() {
    let manifest = manifest_with(Vec::new(), b"the real identity");
    let result = plan_snapshot_restore(
        RestoreSnapshotRequest { manifest, locations: Vec::new(), storage_directory: path("/store") },
        b"another identity",
        &Vec::new(),
    );

    assert_eq!(
        result,
        Err(RestorePlanError::Failure(IoFailure {
            kind: IoErrorKind::InvalidData,
            message: "Snapshot manifest failed identity verification".to_string(),
        }))
    );
}

#[test]
fn an_unknown_format_version_is_not_restored() {
    let mut manifest = manifest_with(Vec::new(), b"id");
    manifest.format_version = 7;
    let result = plan_snapshot_restore(
        RestoreSnapshotRequest { manifest, locations: Vec::new(), storage_directory: path("/store") },
        b"id",
        &Vec::new(),
    );

    match result {
        Err(RestorePlanError::Failure(error)) => assert_eq!(error.message, "Unsupported snapshot format version 7"),
        other => panic!("unexpected result {other:?}"),
    }
}

#[test]
fn overlapping_restore_paths_are_refused() {
    let identity = b"overlap";
    let direct = snapshot_file("", b"a");
    let again = SnapshotFile { relative_path: String::new(), ..snapshot_file("", b"b") };
    let manifest = manifest_with(vec![direct.clone(), again.clone()], identity);
    let observations = vec![
        PathObservation { path: path("/saves/save.dat"), state: PathState::File(Ok(fingerprint_of(b"a"))) },
        PathObservation { path: blob_path("/store/blobs", &direct), state: PathState::File(Ok(fingerprint_of(b"a"))) },
    ];

    let result = plan_snapshot_restore(
        RestoreSnapshotRequest {
            manifest,
            locations: vec![restore_location("main-saves", "/saves/save.dat")],
            storage_directory: path("/store"),
        },
        identity,
        &observations,
    );

    assert_eq!(
        result,
        Err(RestorePlanError::OverlappingPaths { existing: path("/saves/save.dat"), destination: path("/saves/save.dat") })
    );
}

#[test]
fn fingerprints_compare_by_size_and_hash() {
    let a = fingerprint_of(b"abc");
    let b = FileFingerprint { size_bytes: 3, content_hash: a.content_hash.clone() };

    assert_eq!(a, b);
}

#[test]
fn files_are_restored_where_they_were_found() {
    let root = path("/home/reader/.local/share/Game/saves");
    let found = path("slot 1/save.dat");
    let relative = normalize_relative_path(&found).unwrap();
    let file = SnapshotFile { relative_path: relative, ..snapshot_file("", b"contents") };
    let locations = vec![
        ResolvedLocation {
            location: SaveLocation { id: "other".to_string(), path: "/elsewhere".to_string(), label: "Other".to_string() },
            root: path("/elsewhere"),
        },
        ResolvedLocation {
            location: SaveLocation {
                id: "main-saves".to_string(),
                path: "/home/reader/.local/share/Game/saves".to_string(),
                label: "Saves".to_string(),
            },
            root: root.clone(),
        },
    ];
    let directory = vec![PathObservation { path: root.clone(), state: PathState::Directory }];
    assert_eq!(
        destination_path_for_snapshot_file(&file, &locations, &directory).unwrap(),
        path("/home/reader/.local/share/Game/saves/slot 1/save.dat")
    );

    let missing = vec![PathObservation { path: root.clone(), state: PathState::Failed(not_found()) }];
    assert_eq!(
        destination_path_for_snapshot_file(&file, &locations, &missing).unwrap(),
        path("/home/reader/.local/share/Game/saves/slot 1/save.dat")
    );

    let direct = snapshot_file("", b"contents");
    let save_file = vec![PathObservation { path: root.clone(), state: PathState::File(Ok(fingerprint_of(b"older"))) }];
    assert_eq!(destination_path_for_snapshot_file(&direct, &locations, &save_file).unwrap(), root);
}
