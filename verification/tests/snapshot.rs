use kakera::error::{IoErrorKind, IoFailure};
use kakera::hashing::content_hash;
use kakera::models::SaveLocation;
use kakera::paths::{LocalPath, PathComponent};
use kakera::save_sync::{fingerprint_of, DiscoveredSaveFile, FileFingerprint, SnapshotFile, SNAPSHOT_FORMAT_VERSION};
use kakera::snapshot::{
    blob_path_for, collect_location_files, manifest_path_for, persist_manifest, same_manifest,
    snapshot_file_from_discovered, snapshot_id_for_manifest, store_blob, BlobPersist, CreateSnapshotRequest,
    ManifestPersist, SnapshotBuilder,
};

fn path(text: &str) -> LocalPath {
    let mut components = Vec::new();
    if text.starts_with('/') {
        components.push(PathComponent::RootDir);
    }
    for part in text.split('/') {
        match part {
            "" | "." => {}
            ".." => components.push(PathComponent::ParentDir),
            name => components.push(PathComponent::Normal(name.to_string())),
        }
    }
    LocalPath { components }
}

fn discovered(location_id: &str, relative_path: &str) -> DiscoveredSaveFile {
    DiscoveredSaveFile {
        location_id: location_id.to_string(),
        relative_path: relative_path.to_string(),
        source_path: path(&format!("/live/{relative_path}")),
    }
}

fn request(locations: Vec<SaveLocation>) -> CreateSnapshotRequest {
    CreateSnapshotRequest {
        vn_sync_id: "vn-test".to_string(),
        device_id: "test-device".to_string(),
        parent_snapshot_id: None,
        locations,
        storage_directory: path("/test/snapshot-store"),
    }
}

fn main_saves() -> SaveLocation {
    SaveLocation { id: "main-saves".to_string(), path: "/test/live-saves".to_string(), label: "Main saves".to_string() }
}

#[test]
fn stores_and_reuses_content_addressed_blobs() {
    let blob_directory = path("/test/blobs");
    let original = fingerprint_of(b"visual novel save contents");

    let first_blob = store_blob(&blob_directory, original.clone(), BlobPersist::Persisted).expect("the first blob should be stored");

    assert!(!first_blob.reused_existing_blob);
    assert_eq!(first_blob.path, path(&format!("/test/blobs/{}.blob", original.content_hash)));

    let repeated_blob = store_blob(&blob_directory, original.clone(), BlobPersist::AlreadyExists(Ok(original.clone())))
        .expect("the identical blob should be reused");

    assert!(repeated_blob.reused_existing_blob);
    assert_eq!(repeated_blob.path, first_blob.path);
    assert_eq!(repeated_blob.fingerprint, first_blob.fingerprint);

    let changed = fingerprint_of(b"new save contents");
    let changed_blob = store_blob(&blob_directory, changed, BlobPersist::Persisted).expect("the changed blob should be stored");

    assert!(!changed_blob.reused_existing_blob);
    assert_ne!(changed_blob.path, first_blob.path);
}

#[test]
fn a_tampered_existing_blob_is_not_reused() {
    let expected = fingerprint_of(b"contents");
    let tampered = FileFingerprint { size_bytes: expected.size_bytes, content_hash: fingerprint_of(b"other").content_hash };
    let error = store_blob(&path("/b"), expected, BlobPersist::AlreadyExists(Ok(tampered))).unwrap_err();

    assert_eq!(error.kind, IoErrorKind::InvalidData);
    assert_eq!(error.message, "Existing content addressed blob failed verification");
}

#[test]
fn blob_storage_failures_are_passed_on() {
    let failure = IoFailure { kind: IoErrorKind::PermissionDenied, message: "read only".to_string() };
    let error = store_blob(&path("/b"), fingerprint_of(b"x"), BlobPersist::Failed(failure)).unwrap_err();

    assert_eq!(error.kind, IoErrorKind::PermissionDenied);
    assert_eq!(error.message, "read only");
}

#[test]
fn blob_paths_are_named_by_content_hash() {
    let fingerprint = fingerprint_of(b"save");

    assert_eq!(blob_path_for(&path("/s/blobs"), &fingerprint), path(&format!("/s/blobs/{}.blob", fingerprint.content_hash)));
}

#[test]
fn creates_a_complete_local_snapshot() {
    let (mut builder, locations) = SnapshotBuilder::new(request(vec![main_saves()])).expect("the snapshot request should be accepted");

    assert_eq!(locations, vec![main_saves()]);
    assert_eq!(builder.blob_directory, path("/test/snapshot-store/blobs"));
    assert_eq!(builder.manifest_directory, path("/test/snapshot-store/manifests"));

    for (relative_path, contents) in [("slot-1/progress.dat", &b"progress"[..]), ("settings.dat", &b"settings"[..])] {
        let fingerprint = fingerprint_of(contents);
        let stored = store_blob(&builder.blob_directory, fingerprint, BlobPersist::Persisted).unwrap();
        builder.add_file(discovered("main-saves", relative_path), stored);
    }

    let sealed = builder.seal("2026-07-23T12:00:00+00:00".to_string(), b"encoded identity");
    assert_eq!(sealed.path(), &manifest_path_for(&path("/test/snapshot-store/manifests"), sealed.sealed_manifest()));
    let created = sealed.finish(ManifestPersist::Persisted).unwrap();

    assert_eq!(created.manifest.format_version, SNAPSHOT_FORMAT_VERSION);
    assert_eq!(created.manifest.vn_sync_id, "vn-test");
    assert_eq!(created.manifest.device_id, "test-device");
    assert_eq!(created.manifest.files.len(), 2);
    assert_eq!(created.manifest.files[0].relative_path, "settings.dat");
    assert_eq!(created.manifest.files[1].relative_path, "slot-1/progress.dat");
    assert_eq!(created.new_blob_count, 2);
    assert_eq!(created.reused_blob_count, 0);
    assert!(!created.manifest.snapshot_id.is_empty());
    assert_eq!(created.manifest.snapshot_id, content_hash(b"encoded identity"));
    assert_eq!(created.manifest_path, path(&format!("/test/snapshot-store/manifests/{}.json", created.manifest.snapshot_id)));
}

#[test]
fn manifest_entries_are_ordered_by_location_then_path() {
    let (mut builder, _) = SnapshotBuilder::new(request(vec![main_saves()])).unwrap();
    for (location_id, relative_path) in [("z", "a.dat"), ("a", "b.dat"), ("a", "a.dat")] {
        let stored = store_blob(&builder.blob_directory, fingerprint_of(relative_path.as_bytes()), BlobPersist::Persisted).unwrap();
        builder.add_file(discovered(location_id, relative_path), stored);
    }
    let manifest = builder.draft_manifest(String::new());
    let keys: Vec<(String, String)> = manifest.files.iter().map(|f| (f.location_id.clone(), f.relative_path.clone())).collect();

    assert_eq!(
        keys,
        vec![
            ("a".to_string(), "a.dat".to_string()),
            ("a".to_string(), "b.dat".to_string()),
            ("z".to_string(), "a.dat".to_string())
        ]
    );
}

#[test]
fn entries_alike_keep_the_order_they_were_found_in() {
    let (mut builder, _) = SnapshotBuilder::new(request(vec![main_saves()])).unwrap();
    for contents in ["first", "second", "third"] {
        let stored = store_blob(&builder.blob_directory, fingerprint_of(contents.as_bytes()), BlobPersist::Persisted).unwrap();
        builder.add_file(discovered("saves", "slot.dat"), stored);
    }
    let manifest = builder.draft_manifest(String::new());
    let hashes: Vec<String> = manifest.files.iter().map(|f| f.content_hash.clone()).collect();
    assert_eq!(
        hashes,
        vec![
            fingerprint_of(b"first").content_hash,
            fingerprint_of(b"second").content_hash,
            fingerprint_of(b"third").content_hash,
        ]
    );
}

#[test]
fn reused_blobs_are_counted_apart() {
    let (mut builder, _) = SnapshotBuilder::new(request(vec![main_saves()])).unwrap();
    let fingerprint = fingerprint_of(b"same");
    let stored = store_blob(&builder.blob_directory, fingerprint.clone(), BlobPersist::AlreadyExists(Ok(fingerprint))).unwrap();
    builder.add_file(discovered("main-saves", "a.dat"), stored);

    assert_eq!(builder.new_blob_count, 0);
    assert_eq!(builder.reused_blob_count, 1);
}

#[test]
fn snapshot_requests_are_checked_in_order() {
    let mut blank_vn = request(vec![main_saves()]);
    blank_vn.vn_sync_id = "   ".to_string();
    let error = SnapshotBuilder::new(blank_vn).unwrap_err();
    assert_eq!(error.kind, IoErrorKind::InvalidInput);
    assert_eq!(error.message, "A snapshot requires a VN sync ID");

    let mut blank_device = request(vec![main_saves()]);
    blank_device.device_id = String::new();
    assert_eq!(SnapshotBuilder::new(blank_device).unwrap_err().message, "A snapshot requires a device ID");

    assert_eq!(SnapshotBuilder::new(request(Vec::new())).unwrap_err().message, "A snapshot requires at least one save location");
}

#[test]
fn a_sealed_snapshot_is_finished_only_against_a_matching_manifest() {
    let sealed_snapshot = |identity: &[u8]| {
        let (mut builder, _) = SnapshotBuilder::new(request(vec![main_saves()])).unwrap();
        let stored = store_blob(&builder.blob_directory, fingerprint_of(b"x"), BlobPersist::Persisted).unwrap();
        builder.add_file(discovered("main-saves", "x.dat"), stored);
        builder.seal("now".to_string(), identity)
    };
    let first = sealed_snapshot(b"identity");
    let same = sealed_snapshot(b"identity").sealed_manifest().clone();
    let created = first.finish(ManifestPersist::AlreadyExists(Ok(same))).unwrap();
    assert_eq!(created.manifest.snapshot_id, snapshot_id_for_manifest(b"identity"));
    assert_eq!(created.new_blob_count + created.reused_blob_count, created.manifest.files.len());

    let other = sealed_snapshot(b"other identity").sealed_manifest().clone();
    let refused = sealed_snapshot(b"identity").finish(ManifestPersist::AlreadyExists(Ok(other))).unwrap_err();
    assert_eq!(refused.message, "Existing snapshot manifest failed verification");
    let failed = sealed_snapshot(b"identity")
        .finish(ManifestPersist::Failed(IoFailure { kind: IoErrorKind::PermissionDenied, message: "denied".to_string() }))
        .unwrap_err();
    assert_eq!(failed.kind, IoErrorKind::PermissionDenied);
}

#[test]
fn an_existing_manifest_must_match() {
    let (builder, _) = SnapshotBuilder::new(request(vec![main_saves()])).unwrap();
    let manifest = builder.draft_manifest("now".to_string());
    let same = builder.draft_manifest("now".to_string());
    let other = builder.draft_manifest("later".to_string());
    let target = path("/m/x.json");

    assert!(same_manifest(&manifest, &same));
    assert!(!same_manifest(&manifest, &other));
    assert_eq!(persist_manifest(&manifest, target.clone(), ManifestPersist::AlreadyExists(Ok(same))), Ok(target.clone()));
    assert_eq!(
        persist_manifest(&manifest, target, ManifestPersist::AlreadyExists(Ok(other))).unwrap_err().message,
        "Existing snapshot manifest failed verification"
    );
}

#[test]
fn collects_manifest_entries_or_the_first_hashing_failure() {
    let files = vec![discovered("main-saves", "slot-a/save1.dat"), discovered("main-saves", "slot-b/save2.dat")];
    let hashes = vec![Ok(fingerprint_of(b"first save")), Ok(fingerprint_of(b"second save"))];
    let entries = collect_location_files(&files, &hashes).unwrap();

    assert_eq!(
        entries,
        vec![
            SnapshotFile {
                location_id: "main-saves".to_string(),
                relative_path: "slot-a/save1.dat".to_string(),
                size_bytes: 10,
                content_hash: fingerprint_of(b"first save").content_hash,
            },
            SnapshotFile {
                location_id: "main-saves".to_string(),
                relative_path: "slot-b/save2.dat".to_string(),
                size_bytes: 11,
                content_hash: fingerprint_of(b"second save").content_hash,
            },
        ]
    );

    let failing = vec![Ok(fingerprint_of(b"first save")), Err(IoFailure { kind: IoErrorKind::NotFound, message: "gone".to_string() })];
    assert_eq!(collect_location_files(&files, &failing).unwrap_err().message, "gone");
}

#[test]
fn a_discovered_file_becomes_a_manifest_entry() {
    let entry = snapshot_file_from_discovered(discovered("l", "p.dat"), Ok(fingerprint_of(b"abc"))).unwrap();

    assert_eq!(entry.location_id, "l");
    assert_eq!(entry.relative_path, "p.dat");
    assert_eq!(entry.size_bytes, 3);
}
