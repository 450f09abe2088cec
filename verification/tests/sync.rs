use kakera::error::{IoErrorKind, IoFailure};
use kakera::paths::{LocalPath, PathComponent};
use kakera::save_sync::{fingerprint_of, SnapshotFile, SnapshotManifest};
use kakera::sync_protocol::{
    control_message_length, frame_control_message, PeerHello, SnapshotDescriptor, SyncMessage, SyncProtocolErrorCode,
    MAX_CONTROL_MESSAGE_BYTES, SYNC_PROTOCOL_VERSION,
};
use kakera::sync_session::{
    accept_blob_announcement, accept_manifest_response, blob_download_needed, blob_request, build_inventory_response,
    build_manifest_response, check_blob_announcement, check_existing_received_blob, check_hello_as_client,
    check_hello_as_server, check_received_blob, check_sent_blob, classify_request, manifest_request,
    newest_offered_snapshot, prepare_blob_response, requested_blob, requested_vn, unexpected_message_reply,
    BlobReception, BlobTransmission, RequestKind, ServerSession, VerifiedLocalBlob, BLOB_BUFFER_SIZE,
};

fn sync_id() -> String {
    format!("sync-{}", "0123456789abcdef".repeat(4))
}

fn manifest(snapshot_id: &str, files: usize) -> SnapshotManifest {
    let mut entries = Vec::new();
    for index in 0..files {
        let fingerprint = fingerprint_of(format!("save {index}").as_bytes());
        entries.push(SnapshotFile {
            location_id: "main-saves".to_string(),
            relative_path: format!("slot{index}.sav"),
            size_bytes: fingerprint.size_bytes,
            content_hash: fingerprint.content_hash,
        });
    }
    SnapshotManifest {
        format_version: 1,
        snapshot_id: snapshot_id.to_string(),
        vn_sync_id: sync_id(),
        device_id: "device-test".to_string(),
        created_at: "2026-08-08T12:00:00Z".to_string(),
        parent_snapshot_id: None,
        files: entries,
    }
}

#[test]
fn creates_snapshot_descriptor_without_file_details() {
    let manifest = SnapshotManifest {
        format_version: 1,
        snapshot_id: "snapshot-one".to_string(),
        vn_sync_id: "sync-test".to_string(),
        device_id: "device-test".to_string(),
        created_at: "2026-08-08T12:00:00Z".to_string(),
        parent_snapshot_id: Some("snapshot-zero".to_string()),
        files: Vec::new(),
    };

    let descriptor = SnapshotDescriptor::from_manifest(&manifest);

    assert_eq!(descriptor.snapshot_id, "snapshot-one");
    assert_eq!(descriptor.parent_snapshot_id, Some("snapshot-zero".to_string()));
    assert_eq!(descriptor.file_count, 0);
}

#[test]
fn returns_empty_inventory_for_vn_without_snapshots() {
    let vn_sync_id = sync_id();

    let response = build_inventory_response(
        SyncMessage::SnapshotInventoryRequest { vn_sync_id: vn_sync_id.clone() },
        Ok(Vec::new()),
    );

    assert_eq!(response, SyncMessage::SnapshotInventory { vn_sync_id, snapshots: Vec::new() });
}

#[test]
fn rejects_non_inventory_messages() {
    let response = build_inventory_response(
        SyncMessage::BlobRequest { vn_sync_id: sync_id(), content_hash: "not-an-inventory-request".to_string() },
        Ok(Vec::new()),
    );

    assert_eq!(
        response,
        SyncMessage::Error {
            code: SyncProtocolErrorCode::InvalidRequest,
            message: "Expected a snapshot inventory request".to_string(),
        }
    );
}

#[test]
fn reports_missing_snapshot_manifest() {
    let response = build_manifest_response(
        SyncMessage::ManifestRequest { vn_sync_id: sync_id(), snapshot_id: "missing-snapshot".to_string() },
        Ok(Vec::new()),
    );

    assert_eq!(
        response,
        SyncMessage::Error {
            code: SyncProtocolErrorCode::NotFound,
            message: "The requested snapshot does not exist".to_string(),
        }
    );
}

#[test]
fn rejects_non_manifest_requests() {
    let response = build_manifest_response(SyncMessage::SnapshotInventoryRequest { vn_sync_id: sync_id() }, Ok(Vec::new()));

    assert_eq!(
        response,
        SyncMessage::Error {
            code: SyncProtocolErrorCode::InvalidRequest,
            message: "Expected a snapshot manifest request".to_string(),
        }
    );
}

#[test]
fn rejects_invalid_blob_hash() {
    let lookup = Err(IoFailure { kind: IoErrorKind::InvalidInput, message: "Snapshot contains an invalid blob hash".to_string() });
    let response = prepare_blob_response(
        SyncMessage::BlobRequest { vn_sync_id: sync_id(), content_hash: "../private-file".to_string() },
        lookup,
    );

    assert_eq!(
        response,
        Err(SyncMessage::Error {
            code: SyncProtocolErrorCode::InvalidRequest,
            message: "The blob request is invalid".to_string(),
        })
    );
}

#[test]
fn inventory_describes_each_snapshot_in_order() {
    let response = build_inventory_response(
        SyncMessage::SnapshotInventoryRequest { vn_sync_id: sync_id() },
        Ok(vec![manifest("newer", 2), manifest("older", 1)]),
    );

    match response {
        SyncMessage::SnapshotInventory { snapshots, .. } => {
            assert_eq!(snapshots.len(), 2);
            assert_eq!(snapshots[0].snapshot_id, "newer");
            assert_eq!(snapshots[0].file_count, 2);
            assert_eq!(snapshots[1].snapshot_id, "older");
            assert_eq!(snapshots[1].file_count, 1);
        }
        other => panic!("unexpected response {other:?}"),
    }
}

#[test]
fn a_failed_listing_is_reported_without_details() {
    let failure = IoFailure { kind: IoErrorKind::PermissionDenied, message: "secret path".to_string() };
    let response = build_inventory_response(SyncMessage::SnapshotInventoryRequest { vn_sync_id: sync_id() }, Err(failure));

    assert_eq!(
        response,
        SyncMessage::Error {
            code: SyncProtocolErrorCode::Internal,
            message: "The local snapshot inventory could not be loaded".to_string(),
        }
    );
}

#[test]
fn a_requested_manifest_is_sent_whole() {
    let response = build_manifest_response(
        SyncMessage::ManifestRequest { vn_sync_id: sync_id(), snapshot_id: "older".to_string() },
        Ok(vec![manifest("newer", 2), manifest("older", 1)]),
    );

    assert_eq!(response, SyncMessage::Manifest { manifest: manifest("older", 1) });
}

#[test]
fn a_found_blob_is_announced_with_its_size() {
    let blob = VerifiedLocalBlob {
        path: LocalPath { components: vec![PathComponent::RootDir, PathComponent::Normal("b.blob".to_string())] },
        content_hash: fingerprint_of(b"data").content_hash,
        size_bytes: 4,
    };
    let prepared = prepare_blob_response(
        SyncMessage::BlobRequest { vn_sync_id: sync_id(), content_hash: blob.content_hash.clone() },
        Ok(VerifiedLocalBlob { path: blob.path.clone(), content_hash: blob.content_hash.clone(), size_bytes: 4 }),
    )
    .unwrap();

    assert_eq!(prepared.ready_message, SyncMessage::BlobReady { content_hash: blob.content_hash.clone(), size_bytes: 4 });
    assert_eq!(prepared.blob, blob);
}

#[test]
fn sessions_start_with_a_hello_of_the_current_version() {
    let hello = SyncMessage::Hello(PeerHello {
        protocol_version: SYNC_PROTOCOL_VERSION,
        device_id: "device-test".to_string(),
        device_name: "Steam Deck".to_string(),
    });
    assert!(check_hello_as_server(&hello).is_ok());
    assert!(check_hello_as_client(&hello).is_ok());

    let old = SyncMessage::Hello(PeerHello { protocol_version: 0, device_id: "d".to_string(), device_name: "n".to_string() });
    let (reply, error) = check_hello_as_server(&old).unwrap_err();
    assert_eq!(
        reply,
        Some(SyncMessage::Error {
            code: SyncProtocolErrorCode::UnsupportedVersion,
            message: "The peer uses an unsupported sync protocol".to_string(),
        })
    );
    assert_eq!(error.message, "The peer uses an unsupported sync protocol");

    let (reply, error) = check_hello_as_server(&SyncMessage::SnapshotInventoryRequest { vn_sync_id: sync_id() }).unwrap_err();
    assert_eq!(reply, None);
    assert_eq!(error.message, "The peer did not begin with a hello message");
}

#[test]
fn a_server_completes_only_the_offered_snapshot() {
    let mut session = ServerSession::new();
    assert!(session.complete(sync_id(), "older".to_string()).is_err());

    session.note_response(&SyncMessage::Manifest { manifest: manifest("older", 1) });
    let done = session.complete(sync_id(), "older".to_string()).unwrap();
    assert_eq!(done.snapshot_id, "older");

    let refused = session.complete(sync_id(), "newer".to_string()).unwrap_err();
    assert_eq!(refused.message, "The peer confirmed a snapshot that was not offered");
}

#[test]
fn requests_are_classified() {
    assert_eq!(classify_request(&SyncMessage::SnapshotInventoryRequest { vn_sync_id: sync_id() }), RequestKind::Inventory);
    assert_eq!(
        classify_request(&SyncMessage::TransferComplete { vn_sync_id: sync_id(), snapshot_id: "s".to_string() }),
        RequestKind::Completion
    );
    assert_eq!(classify_request(&SyncMessage::BlobReady { content_hash: String::new(), size_bytes: 0 }), RequestKind::Unexpected);
}

#[test]
fn the_client_takes_the_newest_offered_snapshot() {
    let inventory = build_inventory_response(
        SyncMessage::SnapshotInventoryRequest { vn_sync_id: sync_id() },
        Ok(vec![manifest("newer", 2), manifest("older", 1)]),
    );
    let newest = newest_offered_snapshot(&sync_id(), inventory).unwrap();
    assert_eq!(newest.snapshot_id, "newer");

    let empty = SyncMessage::SnapshotInventory { vn_sync_id: sync_id(), snapshots: Vec::new() };
    let error = newest_offered_snapshot(&sync_id(), empty).unwrap_err();
    assert_eq!(error.kind, IoErrorKind::NotFound);
    assert_eq!(error.message, "The peer has no snapshots for this vn");
}

#[test]
fn the_client_accepts_only_the_requested_manifest() {
    let wanted = accept_manifest_response(&sync_id(), &"older".to_string(), SyncMessage::Manifest { manifest: manifest("older", 1) });
    assert_eq!(wanted.unwrap(), manifest("older", 1));

    let other = accept_manifest_response(&sync_id(), &"older".to_string(), SyncMessage::Manifest { manifest: manifest("newer", 1) });
    assert!(other.is_err());
}

#[test]
fn blobs_already_present_are_not_downloaded_again() {
    let file = manifest("s", 1).files.remove(0);
    let present = Ok(VerifiedLocalBlob {
        path: LocalPath { components: Vec::new() },
        content_hash: file.content_hash.clone(),
        size_bytes: file.size_bytes,
    });
    assert_eq!(blob_download_needed(&present, &file).unwrap(), false);

    let missing = Err(IoFailure { kind: IoErrorKind::NotFound, message: "missing".to_string() });
    assert_eq!(blob_download_needed(&missing, &file).unwrap(), true);
}

#[test]
fn announced_and_received_blobs_are_checked() {
    let file = manifest("s", 1).files.remove(0);
    let announced = accept_blob_announcement(
        SyncMessage::BlobReady { content_hash: file.content_hash.clone(), size_bytes: file.size_bytes },
        &file,
    )
    .unwrap();
    assert_eq!(announced, (file.content_hash.clone(), file.size_bytes));

    assert!(check_blob_announcement(&file.content_hash, file.size_bytes).is_ok());
    assert!(check_blob_announcement(&"not-a-hash".to_string(), 1).is_err());

    assert!(check_received_blob(&file.content_hash, &fingerprint_of(b"save 0")).is_ok());
    assert!(check_received_blob(&file.content_hash, &fingerprint_of(b"tampered")).is_err());
}

#[test]
fn control_messages_are_framed_with_their_length() {
    let framed = frame_control_message(b"hello").unwrap();

    assert_eq!(framed, vec![0, 0, 0, 5, b'h', b'e', b'l', b'l', b'o']);
    assert_eq!(control_message_length(&[0, 0, 0, 5]).unwrap(), 5);
}

#[test]
fn oversized_control_messages_are_refused() {
    let too_long = vec![0u8; MAX_CONTROL_MESSAGE_BYTES + 1];
    assert!(frame_control_message(&too_long).is_err());

    let prefix = ((MAX_CONTROL_MESSAGE_BYTES + 1) as u32).to_be_bytes();
    assert!(control_message_length(&prefix).is_err());
}

#[test]
fn requests_name_what_they_ask_for() {
    let file = manifest("s", 1).files.remove(0);
    let for_blob = blob_request(&sync_id(), &file);
    assert_eq!(for_blob, SyncMessage::BlobRequest { vn_sync_id: sync_id(), content_hash: file.content_hash.clone() });
    assert_eq!(requested_blob(&for_blob), Some((sync_id(), file.content_hash.clone())));
    assert_eq!(requested_vn(&for_blob), None);

    let for_manifest = manifest_request(&sync_id(), &"older".to_string());
    assert_eq!(for_manifest, SyncMessage::ManifestRequest { vn_sync_id: sync_id(), snapshot_id: "older".to_string() });
    assert_eq!(requested_vn(&for_manifest), Some(sync_id()));
    assert_eq!(requested_blob(&for_manifest), None);
    assert_eq!(requested_vn(&SyncMessage::SnapshotInventoryRequest { vn_sync_id: sync_id() }), Some(sync_id()));

    assert_eq!(
        unexpected_message_reply(),
        SyncMessage::Error {
            code: SyncProtocolErrorCode::InvalidRequest,
            message: "The peer sent an unexpected message".to_string(),
        }
    );
}

#[test]
fn stored_and_sent_blobs_are_checked_against_their_fingerprint() {
    let fingerprint = fingerprint_of(b"save 0");
    assert!(check_existing_received_blob(&fingerprint.content_hash, 6, &fingerprint).is_ok());
    let wrong_size = check_existing_received_blob(&fingerprint.content_hash, 7, &fingerprint).unwrap_err();
    assert_eq!(wrong_size.kind, IoErrorKind::InvalidData);
    assert_eq!(wrong_size.message, "The existing received blob failed verification");

    let blob = VerifiedLocalBlob {
        path: LocalPath { components: Vec::new() },
        content_hash: fingerprint.content_hash.clone(),
        size_bytes: 6,
    };
    assert!(check_sent_blob(&blob, &fingerprint_of(b"save 0")).is_ok());
    let changed = check_sent_blob(&blob, &fingerprint_of(b"save 1")).unwrap_err();
    assert_eq!(changed.message, "The local blob changed during transmission!!");
}

#[test]
fn blobs_arrive_in_buffer_sized_pieces_and_are_checked_at_the_end() {
    let data: Vec<u8> = (0..150_000_u32).map(|n| (n % 251) as u8).collect();
    let announced = fingerprint_of(&data);
    let mut reception = BlobReception::start(announced.content_hash.clone(), announced.size_bytes).unwrap();
    let mut offset = 0;
    let mut pieces = Vec::new();
    while reception.next_piece() > 0 {
        let length = reception.next_piece();
        pieces.push(length);
        reception.take_piece(&data[offset..offset + length]);
        offset += length;
    }
    assert_eq!(pieces, vec![BLOB_BUFFER_SIZE, BLOB_BUFFER_SIZE, 150_000 - 2 * BLOB_BUFFER_SIZE]);
    assert_eq!(reception.finish().unwrap(), announced);

    let mut tampered = BlobReception::start(announced.content_hash.clone(), 3).unwrap();
    tampered.take_piece(b"abc");
    assert_eq!(tampered.finish().unwrap_err().message, "The received blob failed integrity verification");

    let too_large = BlobReception::start(announced.content_hash.clone(), u64::MAX).err().unwrap();
    assert_eq!(too_large.message, "The peer announced a blob larger than Kakera's limit");
    let bad_hash = BlobReception::start("ABC".to_string(), 1).err().unwrap();
    assert_eq!(bad_hash.message, "The peer announced an invalid blob hash");
}

#[test]
fn sent_blobs_are_checked_against_what_was_verified() {
    let fingerprint = fingerprint_of(b"save data");
    let blob = VerifiedLocalBlob { path: LocalPath { components: Vec::new() }, content_hash: fingerprint.content_hash, size_bytes: 9 };
    let mut sending = BlobTransmission::start(blob);
    sending.record_piece(b"save ");
    sending.record_piece(b"data");
    assert!(sending.finish().is_ok());
    sending.record_piece(b"!");
    assert_eq!(sending.finish().unwrap_err().message, "The local blob changed during transmission!!");
}

#[test]
fn only_the_last_offered_snapshot_is_confirmed() {
    let mut session = ServerSession::new();
    session.note_response(&SyncMessage::Manifest { manifest: manifest("older", 1) });
    session.note_response(&SyncMessage::SnapshotInventory { vn_sync_id: sync_id(), snapshots: Vec::new() });
    assert!(session.complete(sync_id(), "older".to_string()).is_ok());
    session.note_response(&SyncMessage::Manifest { manifest: manifest("newer", 2) });
    session.note_response(&unexpected_message_reply());
    assert!(session.complete(sync_id(), "older".to_string()).is_err());
    assert_eq!(session.complete(sync_id(), "newer".to_string()).unwrap().snapshot_id, "newer");
}
