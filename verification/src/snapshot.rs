use vstd::prelude::*;

use crate::error::{IoErrorKind, IoFailure};
use crate::hashing::{blake3_hex, content_hash, is_canonical_hash};
use crate::library::positions;
use crate::models::SaveLocation;
use crate::paths::{chars_lt, text_lt, ComponentModel, LocalPath};
use crate::save_sync::{
    blob_integrity_failure, blob_name, content_hash_check, destination_state, first_overlap, overlapping,
    planned_from, recorded_state, restore_destination, restore_plan, verified_blob, DiscoveredSaveFile,
    ResolvedLocation, RestoreDestinationState, FileFingerprint, PathObservation, PathState,
    RestoreSnapshotRequest, SnapshotFile, SnapshotManifest, StoredBlob, SNAPSHOT_FORMAT_VERSION,
};
use crate::text::{chars_of, is_lower_hex_digit, is_white_space, skip_white_backward, skip_white_forward, trim_chars, trimmed};

verus! {

/// Inputs required to create one complete local snapshot.
#[derive(Debug, PartialEq)]
pub struct CreateSnapshotRequest {
    pub vn_sync_id: String,
    pub device_id: String,
    pub parent_snapshot_id: Option<String>,
    pub locations: Vec<SaveLocation>,
    pub storage_directory: LocalPath,
}

/// The result of creating and persisting a snapshot.
#[derive(Debug, PartialEq)]
pub struct CreatedSnapshot {
    pub manifest: SnapshotManifest,
    pub manifest_path: LocalPath,
    pub new_blob_count: usize,
    pub reused_blob_count: usize,
}

/// Whether a snapshot can be created for these identifiers and this many save locations.
pub open spec fn snapshot_request_check(vn_sync_id: Seq<char>, device_id: Seq<char>, location_count: nat) -> Result<(), (IoErrorKind, Seq<char>)> {
    if trimmed(vn_sync_id).len() == 0 {
        Err((IoErrorKind::InvalidInput, "A snapshot requires a VN sync ID"@))
    } else if trimmed(device_id).len() == 0 {
        Err((IoErrorKind::InvalidInput, "A snapshot requires a device ID"@))
    } else if location_count == 0 {
        Err((IoErrorKind::InvalidInput, "A snapshot requires at least one save location"@))
    } else {
        Ok(())
    }
}

/// The manifest entry for a discovered file whose contents have `fingerprint`.
pub open spec fn entry_for(discovered: DiscoveredSaveFile, fingerprint: FileFingerprint) -> SnapshotFile {
    SnapshotFile {
        location_id: discovered.location_id,
        relative_path: discovered.relative_path,
        size_bytes: fingerprint.size_bytes,
        content_hash: fingerprint.content_hash,
    }
}

/// Orders manifest entries by save location, then by relative path.
pub open spec fn entry_lt(a: SnapshotFile, b: SnapshotFile) -> bool {
    chars_lt(a.location_id@, b.location_id@) || (a.location_id@ == b.location_id@ && chars_lt(a.relative_path@, b.relative_path@))
}

/// Manifest entries in non-decreasing order of save location, then relative path.
pub open spec fn sorted_entries(s: Seq<SnapshotFile>) -> bool {
    forall|k: int| 0 <= k < s.len() - 1 ==> !entry_lt(#[trigger] s[k + 1], s[k])
}

/// A snapshot being assembled: the files stored so far and how many of their blobs
/// were new.
#[derive(Debug, PartialEq)]
pub struct SnapshotBuilder {
    pub vn_sync_id: String,
    pub device_id: String,
    pub parent_snapshot_id: Option<String>,
    pub blob_directory: LocalPath,
    pub manifest_directory: LocalPath,
    pub files: Vec<SnapshotFile>,
    pub new_blob_count: usize,
    pub reused_blob_count: usize,
}

impl SnapshotBuilder {
    /// Every stored file was counted once, as a new or as a reused blob.
    pub open spec fn well_formed(&self) -> bool {
        self.new_blob_count + self.reused_blob_count == self.files@.len()
    }

    /// Checks a snapshot request and starts the snapshot; the save locations to scan
    /// come back beside it, in their configured order.
    pub fn new(request: CreateSnapshotRequest) -> (r: Result<(SnapshotBuilder, Vec<SaveLocation>), IoFailure>)
        ensures
            match r {
                Ok((b, locations)) => {
                    &&& snapshot_request_check(request.vn_sync_id@, request.device_id@, request.locations@.len()) is Ok
                    &&& b.well_formed()
                    &&& b.vn_sync_id == request.vn_sync_id
                    &&& b.device_id == request.device_id
                    &&& b.parent_snapshot_id == request.parent_snapshot_id
                    &&& b.blob_directory@ == request.storage_directory@.push(ComponentModel::Normal("blobs"@))
                    &&& b.manifest_directory@ == request.storage_directory@.push(ComponentModel::Normal("manifests"@))
                    &&& b.files@.len() == 0
                    &&& b.new_blob_count == 0
                    &&& b.reused_blob_count == 0
                    &&& locations@ == request.locations@
                },
                Err(e) => snapshot_request_check(request.vn_sync_id@, request.device_id@, request.locations@.len())
                    == Err::<(), (IoErrorKind, Seq<char>)>(e.model()),
            },
    {
        let CreateSnapshotRequest { vn_sync_id, device_id, parent_snapshot_id, locations, storage_directory } = request;
        if trim_chars(&chars_of(vn_sync_id.as_str())).len() == 0 {
            return Err(IoFailure::new(IoErrorKind::InvalidInput, "A snapshot requires a VN sync ID"));
        }
        if trim_chars(&chars_of(device_id.as_str())).len() == 0 {
            return Err(IoFailure::new(IoErrorKind::InvalidInput, "A snapshot requires a device ID"));
        }
        if locations.len() == 0 {
            return Err(IoFailure::new(IoErrorKind::InvalidInput, "A snapshot requires at least one save location"));
        }
        let blob_directory = storage_directory.join_name("blobs".to_owned());
        let manifest_directory = storage_directory.join_name("manifests".to_owned());
        proof {
            reveal_strlit("blobs");
            reveal_strlit("manifests");
        }
        let builder = SnapshotBuilder {
            vn_sync_id,
            device_id,
            parent_snapshot_id,
            blob_directory,
            manifest_directory,
            files: Vec::new(),
            new_blob_count: 0,
            reused_blob_count: 0,
        };
        Ok((builder, locations))
    }

    /// Records one discovered file whose contents were stored as `stored`.
    pub fn add_file(&mut self, discovered: DiscoveredSaveFile, stored: StoredBlob)
        requires
            old(self).well_formed(),
            old(self).files@.len() < usize::MAX,
        ensures
            final(self).well_formed(),
            final(self).files@ == old(self).files@.push(entry_for(discovered, stored.fingerprint)),
            final(self).new_blob_count == old(self).new_blob_count + if stored.reused_existing_blob { 0int } else { 1int },
            final(self).reused_blob_count == old(self).reused_blob_count + if stored.reused_existing_blob { 1int } else { 0int },
            final(self).vn_sync_id == old(self).vn_sync_id,
            final(self).device_id == old(self).device_id,
            final(self).parent_snapshot_id == old(self).parent_snapshot_id,
            final(self).blob_directory == old(self).blob_directory,
            final(self).manifest_directory == old(self).manifest_directory,
    {
        if stored.reused_existing_blob {
            self.reused_blob_count = self.reused_blob_count + 1;
        } else {
            self.new_blob_count = self.new_blob_count + 1;
        }
        let DiscoveredSaveFile { location_id, relative_path, source_path: _ } = discovered;
        self.files.push(SnapshotFile {
            location_id,
            relative_path,
            size_bytes: stored.fingerprint.size_bytes,
            content_hash: stored.fingerprint.content_hash,
        });
    }

    /// The manifest of the snapshot so far, without its ID: its entries ordered by save
    /// location and relative path.
    pub fn draft_manifest(&self, created_at: String) -> (r: SnapshotManifest)
        ensures
            r.format_version == SNAPSHOT_FORMAT_VERSION,
            r.snapshot_id@ == Seq::<char>::empty(),
            r.vn_sync_id == self.vn_sync_id,
            r.device_id == self.device_id,
            r.created_at == created_at,
            r.parent_snapshot_id == self.parent_snapshot_id,
            in_manifest_order(self.files@, r.files@),
            sorted_entries(r.files@),
            r.files@.to_multiset() == self.files@.to_multiset(),
    {
        let files = sort_entries(&self.files);
        let parent = match &self.parent_snapshot_id {
            Some(p) => Some(p.clone()),
            None => None,
        };
        SnapshotManifest {
            format_version: SNAPSHOT_FORMAT_VERSION,
            snapshot_id: String::new(),
            vn_sync_id: self.vn_sync_id.clone(),
            device_id: self.device_id.clone(),
            created_at,
            parent_snapshot_id: parent,
            files,
        }
    }

    /// Seals the snapshot: its draft manifest, made at `created_at`, with the ID derived from
    /// `identity` (the JSON encoding of that draft's identity fields), and the path under
    /// which that manifest is kept.
    pub fn seal(self, created_at: String, identity: &[u8]) -> (r: SealedSnapshot)
        requires
            self.well_formed(),
        ensures
            sealed_from(r.manifest(), self, created_at, identity@),
            r.manifest_path()@ == self.manifest_directory@.push(ComponentModel::Normal(r.manifest().snapshot_id@ + ".json"@)),
            r.new_blob_count() == self.new_blob_count,
            r.reused_blob_count() == self.reused_blob_count,
            r.new_blob_count() + r.reused_blob_count() == r.manifest().files@.len(),
    {
        let mut manifest = self.draft_manifest(created_at);
        manifest.snapshot_id = snapshot_id_for_manifest(identity);
        let manifest_path = manifest_path_for(&self.manifest_directory, &manifest);
        proof {
            vstd::seq_lib::to_multiset_len(self.files@);
            vstd::seq_lib::to_multiset_len(manifest.files@);
        }
        SealedSnapshot {
            manifest,
            manifest_path,
            new_blob_count: self.new_blob_count,
            reused_blob_count: self.reused_blob_count,
        }
    }
}

/// `manifest` is what sealing `builder` at `created_at` with the identity encoding
/// `identity` gives: the builder's identifiers, its entries in manifest order, and the ID
/// derived from the identity encoding.
pub open spec fn sealed_from(manifest: SnapshotManifest, builder: SnapshotBuilder, created_at: String, identity: Seq<u8>) -> bool {
    &&& manifest.format_version == SNAPSHOT_FORMAT_VERSION
    &&& manifest.snapshot_id@ == blake3_hex(identity)
    &&& is_canonical_hash(manifest.snapshot_id@)
    &&& manifest.vn_sync_id == builder.vn_sync_id
    &&& manifest.device_id == builder.device_id
    &&& manifest.created_at == created_at
    &&& manifest.parent_snapshot_id == builder.parent_snapshot_id
    &&& in_manifest_order(builder.files@, manifest.files@)
    &&& sorted_entries(manifest.files@)
    &&& manifest.files@.to_multiset() == builder.files@.to_multiset()
}

/// A sealed snapshot whose manifest still has to be written; its contents are fixed when
/// it is sealed.
pub struct SealedSnapshot {
    manifest: SnapshotManifest,
    manifest_path: LocalPath,
    new_blob_count: usize,
    reused_blob_count: usize,
}

impl SealedSnapshot {
    pub closed spec fn manifest(&self) -> SnapshotManifest {
        self.manifest
    }

    pub closed spec fn manifest_path(&self) -> LocalPath {
        self.manifest_path
    }

    pub closed spec fn new_blob_count(&self) -> usize {
        self.new_blob_count
    }

    pub closed spec fn reused_blob_count(&self) -> usize {
        self.reused_blob_count
    }

    /// The manifest to write.
    pub fn sealed_manifest(&self) -> (r: &SnapshotManifest)
        ensures
            *r == self.manifest(),
    {
        &self.manifest
    }

    /// Where the manifest is written.
    pub fn path(&self) -> (r: &LocalPath)
        ensures
            *r == self.manifest_path(),
    {
        &self.manifest_path
    }

    /// The created snapshot, given what happened when its manifest was moved into place
    /// without replacing anything there (as `persist_manifest` settles it).
    pub fn finish(self, outcome: ManifestPersist) -> (r: Result<CreatedSnapshot, IoFailure>)
        ensures
            match r {
                Ok(c) => {
                    &&& c.manifest == self.manifest()
                    &&& c.manifest_path == self.manifest_path()
                    &&& c.new_blob_count == self.new_blob_count()
                    &&& c.reused_blob_count == self.reused_blob_count()
                    &&& match outcome {
                        ManifestPersist::Persisted => true,
                        ManifestPersist::AlreadyExists(Ok(existing)) => manifest_view(existing) == manifest_view(self.manifest()),
                        _ => false,
                    }
                },
                Err(e) => match outcome {
                    ManifestPersist::Persisted => false,
                    ManifestPersist::AlreadyExists(Ok(existing)) => manifest_view(existing) != manifest_view(self.manifest())
                        && e.model() == manifest_mismatch_failure(),
                    ManifestPersist::AlreadyExists(Err(f)) => e.model() == f.model(),
                    ManifestPersist::Failed(f) => e.model() == f.model(),
                },
            },
    {
        let SealedSnapshot { manifest, manifest_path, new_blob_count, reused_blob_count } = self;
        match persist_manifest(&manifest, manifest_path, outcome) {
            Ok(path) => Ok(CreatedSnapshot { manifest, manifest_path: path, new_blob_count, reused_blob_count }),
            Err(e) => Err(e),
        }
    }
}

proof fn lemma_chars_lt_asymmetric(a: Seq<char>, b: Seq<char>)
    requires
        chars_lt(a, b),
    ensures
        !chars_lt(b, a),
        a != b,
    decreases a.len(),
{
    if a.len() > 0 && b.len() > 0 && a[0] == b[0] {
        lemma_chars_lt_asymmetric(a.drop_first(), b.drop_first());
    }
}

proof fn lemma_entry_lt_asymmetric(a: SnapshotFile, b: SnapshotFile)
    requires
        entry_lt(a, b),
    ensures
        !entry_lt(b, a),
{
    if chars_lt(a.location_id@, b.location_id@) {
        lemma_chars_lt_asymmetric(a.location_id@, b.location_id@);
    } else {
        lemma_chars_lt_asymmetric(a.relative_path@, b.relative_path@);
        if chars_lt(b.location_id@, a.location_id@) {
            lemma_chars_lt_asymmetric(b.location_id@, a.location_id@);
        }
    }
}

fn entry_before(a: &SnapshotFile, b: &SnapshotFile) -> (r: bool)
    ensures
        r == entry_lt(*a, *b),
{
    if text_lt(&a.location_id, &b.location_id) {
        true
    } else if a.location_id.eq(&b.location_id) {
        text_lt(&a.relative_path, &b.relative_path)
    } else {
        false
    }
}

/// Whether the entry at `i` goes before the one at `j` in a manifest: by save location
/// and relative path, entries alike in both keeping the order in which they were found.
pub open spec fn entry_goes_before(files: Seq<SnapshotFile>, i: int, j: int) -> bool {
    entry_lt(files[i], files[j]) || (!entry_lt(files[j], files[i]) && i < j)
}

/// `order` lists every position of `files` once, in manifest order.
pub open spec fn manifest_order(files: Seq<SnapshotFile>, order: Seq<usize>) -> bool {
    &&& order.to_multiset() == positions(files.len() as int).to_multiset()
    &&& forall|k: int| 0 <= k < order.len() - 1 ==> entry_goes_before(files, #[trigger] order[k] as int, order[k + 1] as int)
}

/// `sorted` is `files` in manifest order.
pub open spec fn in_manifest_order(files: Seq<SnapshotFile>, sorted: Seq<SnapshotFile>) -> bool {
    exists|order: Seq<usize>| #[trigger] manifest_order(files, order) && sorted == order.map_values(|q: usize| files[q as int])
}

/// The entries reordered by save location and relative path; the sort is stable.
fn sort_entries(files: &Vec<SnapshotFile>) -> (r: Vec<SnapshotFile>)
    ensures
        in_manifest_order(files@, r@),
        sorted_entries(r@),
        r@.to_multiset() == files@.to_multiset(),
{
    let ghost all = files@;
    let ghost mut order: Seq<usize> = Seq::empty();
    let mut sorted: Vec<SnapshotFile> = Vec::new();
    assert(positions(0) =~= order);
    assert(all.take(0) =~= Seq::<SnapshotFile>::empty());
    assert(sorted@ =~= order.map_values(|q: usize| all[q as int]));
    let mut i: usize = 0;
    while i < files.len()
        invariant
            i <= files.len(),
            all == files@,
            sorted@ == order.map_values(|q: usize| all[q as int]),
            order.to_multiset() == positions(i as int).to_multiset(),
            forall|m: int| 0 <= m < order.len() ==> #[trigger] order[m] < i,
            forall|m: int| 0 <= m < order.len() - 1 ==> entry_goes_before(all, #[trigger] order[m] as int, order[m + 1] as int),
            sorted@.to_multiset() == all.take(i as int).to_multiset(),
        decreases files.len() - i,
    {
        let item = files[i].clone();
        let ghost before = sorted@;
        let ghost before_order = order;
        let mut p: usize = 0;
        let mut placed = false;
        while p < sorted.len() && !placed
            invariant
                sorted@ == before,
                before == before_order.map_values(|q: usize| all[q as int]),
                item == all[i as int],
                p <= sorted.len(),
                placed ==> p < sorted.len() && entry_lt(item, before[p as int]),
                forall|q: int| 0 <= q < p ==> !entry_lt(item, #[trigger] before[q]),
            decreases sorted.len() - p, if placed { 0int } else { 1int },
        {
            if entry_before(&item, &sorted[p]) {
                placed = true;
            } else {
                p = p + 1;
            }
        }
        sorted.insert(p, item);
        proof {
            order = before_order.insert(p as int, i);
            assert(sorted@ =~= before.insert(p as int, all[i as int]));
            assert(sorted@ =~= order.map_values(|q: usize| all[q as int]));
            vstd::seq_lib::to_multiset_insert(before_order, p as int, i);
            let ps = positions(i as int);
            assert(positions(i + 1) =~= ps.insert(ps.len() as int, i));
            vstd::seq_lib::to_multiset_insert(ps, ps.len() as int, i);
            vstd::seq_lib::to_multiset_insert(before, p as int, all[i as int]);
            let t = all.take(i as int);
            assert(all.take(i + 1) =~= t.insert(t.len() as int, all[i as int]));
            vstd::seq_lib::to_multiset_insert(t, t.len() as int, all[i as int]);
            assert forall|j: int| 0 <= j < order.len() - 1 implies entry_goes_before(all, #[trigger] order[j] as int, order[j + 1] as int) by {
                if j + 1 < p {
                    assert(order[j] == before_order[j] && order[j + 1] == before_order[j + 1]);
                } else if j + 1 == p {
                    assert(order[j] == before_order[j] && order[j + 1] == i);
                    assert(before[j] == all[before_order[j] as int]);
                    assert(before_order[j] < i);
                } else if j == p {
                    assert(order[j] == i && order[j + 1] == before_order[j]);
                    assert(before[j] == all[before_order[j] as int]);
                } else {
                    assert(order[j] == before_order[j - 1] && order[j + 1] == before_order[j]);
                    let q = j - 1;
                    assert(entry_goes_before(all, before_order[q] as int, before_order[q + 1] as int));
                }
            }
            assert forall|m: int| 0 <= m < order.len() implies #[trigger] order[m] < i + 1 by {
                if m < p { assert(order[m] == before_order[m]); } else if m > p { assert(order[m] == before_order[m - 1]); }
            }
        }
        i = i + 1;
    }
    proof {
        assert(all.take(all.len() as int) =~= all);
        assert(manifest_order(all, order));
        assert forall|k: int| 0 <= k < sorted@.len() - 1 implies !entry_lt(#[trigger] sorted@[k + 1], sorted@[k]) by {
            assert(entry_goes_before(all, order[k] as int, order[k + 1] as int));
            if entry_lt(sorted@[k], sorted@[k + 1]) {
                lemma_entry_lt_asymmetric(sorted@[k], sorted@[k + 1]);
            }
        }
    }
    sorted
}

/// The ID of a manifest whose identity fields (format version, VN sync ID, device ID,
/// creation time, parent snapshot and entries), encoded as JSON, are `identity`.
pub fn snapshot_id_for_manifest(identity: &[u8]) -> (r: String)
    ensures
        r@ == blake3_hex(identity@),
        is_canonical_hash(r@),
{
    content_hash(identity)
}

/// Where the blob holding contents with this fingerprint is kept.
pub fn blob_path_for(blob_directory: &LocalPath, fingerprint: &FileFingerprint) -> (r: LocalPath)
    ensures
        r@ == blob_directory@.push(ComponentModel::Normal(blob_name(fingerprint.content_hash@))),
{
    let mut name = fingerprint.content_hash.clone();
    name.append(".blob");
    blob_directory.join_name(name)
}

/// What happened when a freshly written temporary file was moved to its final name
/// without replacing anything there.
#[derive(Debug, PartialEq)]
pub enum BlobPersist {
    /// The blob now holds the new copy.
    Persisted,
    /// A blob of that name was already there; this is what hashing it gave.
    AlreadyExists(Result<FileFingerprint, IoFailure>),
    /// Moving the file failed for another reason.
    Failed(IoFailure),
}

/// Two fingerprints describe the same contents.
pub open spec fn same_fingerprint(a: FileFingerprint, b: FileFingerprint) -> bool {
    a.size_bytes == b.size_bytes && a.content_hash@ == b.content_hash@
}

pub open spec fn blob_mismatch_failure() -> (IoErrorKind, Seq<char>) {
    (IoErrorKind::InvalidData, "Existing content addressed blob failed verification"@)
}

/// Settles the storage of one save file as a content-addressed blob, given the
/// fingerprint of the bytes copied and what happened when the copy was moved into
/// place: a blob already there is reused only if it holds exactly the same contents.
pub fn store_blob(blob_directory: &LocalPath, fingerprint: FileFingerprint, outcome: BlobPersist) -> (r: Result<StoredBlob, IoFailure>)
    ensures
        match r {
            Ok(b) => {
                &&& b.path@ == blob_directory@.push(ComponentModel::Normal(blob_name(fingerprint.content_hash@)))
                &&& b.fingerprint == fingerprint
                &&& match outcome {
                    BlobPersist::Persisted => !b.reused_existing_blob,
                    BlobPersist::AlreadyExists(Ok(existing)) => b.reused_existing_blob && same_fingerprint(existing, fingerprint),
                    _ => false,
                }
            },
            Err(e) => match outcome {
                BlobPersist::Persisted => false,
                BlobPersist::AlreadyExists(Ok(existing)) => !same_fingerprint(existing, fingerprint) && e.model() == blob_mismatch_failure(),
                BlobPersist::AlreadyExists(Err(f)) => e.model() == f.model(),
                BlobPersist::Failed(f) => e.model() == f.model(),
            },
        },
{
    let path = blob_path_for(blob_directory, &fingerprint);
    match outcome {
        BlobPersist::Persisted => Ok(StoredBlob { path, fingerprint, reused_existing_blob: false }),
        BlobPersist::AlreadyExists(Ok(existing)) => {
            if existing.size_bytes != fingerprint.size_bytes || !existing.content_hash.eq(&fingerprint.content_hash) {
                Err(IoFailure::new(IoErrorKind::InvalidData, "Existing content addressed blob failed verification"))
            } else {
                Ok(StoredBlob { path, fingerprint, reused_existing_blob: true })
            }
        },
        BlobPersist::AlreadyExists(Err(f)) => Err(f),
        BlobPersist::Failed(f) => Err(f),
    }
}

/// Where the manifest of a snapshot is kept.
pub fn manifest_path_for(manifest_directory: &LocalPath, manifest: &SnapshotManifest) -> (r: LocalPath)
    ensures
        r@ == manifest_directory@.push(ComponentModel::Normal(manifest.snapshot_id@ + ".json"@)),
{
    let mut name = manifest.snapshot_id.clone();
    name.append(".json");
    manifest_directory.join_name(name)
}

/// What happened when a freshly written manifest was moved to its final name without
/// replacing anything there.
#[derive(Debug, PartialEq)]
pub enum ManifestPersist {
    Persisted,
    /// A manifest of that name was already there; this is what reading and decoding it gave.
    AlreadyExists(Result<SnapshotManifest, IoFailure>),
    Failed(IoFailure),
}

pub open spec fn manifest_mismatch_failure() -> (IoErrorKind, Seq<char>) {
    (IoErrorKind::InvalidData, "Existing snapshot manifest failed verification"@)
}

/// A manifest entry as plain values.
pub open spec fn entry_view(f: SnapshotFile) -> (Seq<char>, Seq<char>, u64, Seq<char>) {
    (f.location_id@, f.relative_path@, f.size_bytes, f.content_hash@)
}

/// A manifest as plain values.
pub open spec fn manifest_view(m: SnapshotManifest) -> (u32, Seq<char>, Seq<char>, Seq<char>, Seq<char>, Option<Seq<char>>, Seq<(Seq<char>, Seq<char>, u64, Seq<char>)>) {
    (m.format_version, m.snapshot_id@, m.vn_sync_id@, m.device_id@, m.created_at@,
        match m.parent_snapshot_id { Some(p) => Some(p@), None => None },
        m.files@.map_values(|f: SnapshotFile| entry_view(f)))
}

fn same_file(a: &SnapshotFile, b: &SnapshotFile) -> (r: bool)
    ensures
        r == (entry_view(*a) == entry_view(*b)),
{
    a.location_id.eq(&b.location_id) && a.relative_path.eq(&b.relative_path)
        && a.size_bytes == b.size_bytes && a.content_hash.eq(&b.content_hash)
}

fn same_text(a: &Option<String>, b: &Option<String>) -> (r: bool)
    ensures
        r == (match *a { Some(p) => Some(p@), None => None::<Seq<char>> } == match *b { Some(p) => Some(p@), None => None::<Seq<char>> }),
{
    match (a, b) {
        (Some(x), Some(y)) => x.eq(y),
        (None, None) => true,
        _ => false,
    }
}

/// Whether two manifests agree in every field.
pub fn same_manifest(a: &SnapshotManifest, b: &SnapshotManifest) -> (r: bool)
    ensures
        r == (manifest_view(*a) == manifest_view(*b)),
{
    if a.format_version != b.format_version || !a.snapshot_id.eq(&b.snapshot_id) || !a.vn_sync_id.eq(&b.vn_sync_id)
        || !a.device_id.eq(&b.device_id) || !a.created_at.eq(&b.created_at)
        || !same_text(&a.parent_snapshot_id, &b.parent_snapshot_id) {
        return false;
    }
    if a.files.len() != b.files.len() {
        assert(manifest_view(*a).6.len() != manifest_view(*b).6.len());
        return false;
    }
    let mut i: usize = 0;
    while i < a.files.len()
        invariant
            i <= a.files.len(),
            a.files@.len() == b.files@.len(),
            forall|j: int| 0 <= j < i ==> entry_view(#[trigger] a.files@[j]) == entry_view(b.files@[j]),
            manifest_view(*a).0 == manifest_view(*b).0,
            manifest_view(*a).1 == manifest_view(*b).1,
            manifest_view(*a).2 == manifest_view(*b).2,
            manifest_view(*a).3 == manifest_view(*b).3,
            manifest_view(*a).4 == manifest_view(*b).4,
            manifest_view(*a).5 == manifest_view(*b).5,
        decreases a.files.len() - i,
    {
        if !same_file(&a.files[i], &b.files[i]) {
            proof {
                let ia = manifest_view(*a).6;
                assert(ia[i as int] == entry_view(a.files@[i as int]));
            }
            return false;
        }
        i = i + 1;
    }
    assert(manifest_view(*a).6 =~= manifest_view(*b).6);
    true
}

/// Settles the persisting of a snapshot manifest at `manifest_path`: a manifest already
/// there is accepted only if it is the same manifest.
pub fn persist_manifest(manifest: &SnapshotManifest, manifest_path: LocalPath, outcome: ManifestPersist) -> (r: Result<LocalPath, IoFailure>)
    ensures
        match r {
            Ok(p) => p == manifest_path && match outcome {
                ManifestPersist::Persisted => true,
                ManifestPersist::AlreadyExists(Ok(existing)) => manifest_view(existing) == manifest_view(*manifest),
                _ => false,
            },
            Err(e) => match outcome {
                ManifestPersist::Persisted => false,
                ManifestPersist::AlreadyExists(Ok(existing)) => manifest_view(existing) != manifest_view(*manifest) && e.model() == manifest_mismatch_failure(),
                ManifestPersist::AlreadyExists(Err(f)) => e.model() == f.model(),
                ManifestPersist::Failed(f) => e.model() == f.model(),
            },
        },
{
    match outcome {
        ManifestPersist::Persisted => Ok(manifest_path),
        ManifestPersist::AlreadyExists(Ok(existing)) => {
            if same_manifest(&existing, manifest) {
                Ok(manifest_path)
            } else {
                Err(IoFailure::new(IoErrorKind::InvalidData, "Existing snapshot manifest failed verification"))
            }
        },
        ManifestPersist::AlreadyExists(Err(f)) => Err(f),
        ManifestPersist::Failed(f) => Err(f),
    }
}

/// The manifest entry for one discovered file, given the outcome of hashing it.
pub fn snapshot_file_from_discovered(discovered: DiscoveredSaveFile, fingerprint: Result<FileFingerprint, IoFailure>) -> (r: Result<SnapshotFile, IoFailure>)
    ensures
        match fingerprint {
            Ok(fp) => r == Ok::<SnapshotFile, IoFailure>(entry_for(discovered, fp)),
            Err(e) => r is Err && r->Err_0.model() == e.model(),
        },
{
    match fingerprint {
        Ok(fp) => Ok(SnapshotFile {
            location_id: discovered.location_id,
            relative_path: discovered.relative_path,
            size_bytes: fp.size_bytes,
            content_hash: fp.content_hash,
        }),
        Err(e) => Err(e),
    }
}

/// The manifest entries of the first `n` discovered files, or the first failure met
/// hashing them.
pub open spec fn collected_entries(discovered: Seq<DiscoveredSaveFile>, fingerprints: Seq<Result<FileFingerprint, IoFailure>>, n: int) -> Result<Seq<SnapshotFile>, (IoErrorKind, Seq<char>)>
    decreases n,
{
    if n <= 0 {
        Ok(Seq::empty())
    } else {
        match collected_entries(discovered, fingerprints, n - 1) {
            Err(e) => Err(e),
            Ok(s) => match fingerprints[n - 1] {
                Err(e) => Err(e.model()),
                Ok(fp) => Ok(s.push(entry_for(discovered[n - 1], fp))),
            },
        }
    }
}

fn copy_discovered(d: &DiscoveredSaveFile) -> (r: DiscoveredSaveFile)
    ensures
        r.location_id == d.location_id,
        r.relative_path == d.relative_path,
        r.source_path@ == d.source_path@,
{
    DiscoveredSaveFile {
        location_id: d.location_id.clone(),
        relative_path: d.relative_path.clone(),
        source_path: d.source_path.clone(),
    }
}

/// The manifest entries of the files discovered at one save location, given the outcome
/// of hashing each of them (`fingerprints[i]` for `discovered[i]`).
pub fn collect_location_files(discovered: &Vec<DiscoveredSaveFile>, fingerprints: &Vec<Result<FileFingerprint, IoFailure>>) -> (r: Result<Vec<SnapshotFile>, IoFailure>)
    requires
        discovered@.len() == fingerprints@.len(),
    ensures
        match r {
            Ok(files) => collected_entries(discovered@, fingerprints@, discovered@.len() as int) == Ok::<Seq<SnapshotFile>, (IoErrorKind, Seq<char>)>(files@),
            Err(e) => collected_entries(discovered@, fingerprints@, discovered@.len() as int) == Err::<Seq<SnapshotFile>, (IoErrorKind, Seq<char>)>(e.model()),
        },
{
    let mut files: Vec<SnapshotFile> = Vec::new();
    let mut i: usize = 0;
    while i < discovered.len()
        invariant
            i <= discovered@.len(),
            discovered@.len() == fingerprints@.len(),
            collected_entries(discovered@, fingerprints@, i as int) == Ok::<Seq<SnapshotFile>, (IoErrorKind, Seq<char>)>(files@),
        decreases discovered.len() - i,
    {
        let fingerprint = match &fingerprints[i] {
            Ok(fp) => Ok(fp.clone()),
            Err(e) => Err(e.duplicate()),
        };
        let d = copy_discovered(&discovered[i]);
        match snapshot_file_from_discovered(d, fingerprint) {
            Ok(f) => {
                proof {
                    assert(f == entry_for(discovered@[i as int], fingerprints@[i as int]->Ok_0));
                }
                files.push(f);
            },
            Err(e) => {
                proof {
                    assert(collected_entries(discovered@, fingerprints@, i + 1) == Err::<Seq<SnapshotFile>, (IoErrorKind, Seq<char>)>(e.model()));
                    lemma_collected_err_stays(discovered@, fingerprints@, i + 1, discovered@.len() as int);
                }
                return Err(e);
            },
        }
        i = i + 1;
    }
    Ok(files)
}

proof fn lemma_collected_err_stays(discovered: Seq<DiscoveredSaveFile>, fingerprints: Seq<Result<FileFingerprint, IoFailure>>, i: int, n: int)
    requires
        1 <= i <= n,
        collected_entries(discovered, fingerprints, i) is Err,
    ensures
        collected_entries(discovered, fingerprints, n) == collected_entries(discovered, fingerprints, i),
    decreases n - i,
{
    if i < n {
        lemma_collected_err_stays(discovered, fingerprints, i, n - 1);
    }
}

proof fn lemma_ascii_utf8_length(s: Seq<char>)
    requires
        forall|i: int| 0 <= i < s.len() ==> (#[trigger] s[i] as u32) <= 0x7F,
    ensures
        vstd::utf8::encode_utf8(s).len() == s.len(),
    decreases s.len(),
{
    if s.len() > 0 {
        assert forall|i: int| 0 <= i < s.drop_first().len() implies (#[trigger] s.drop_first()[i] as u32) <= 0x7F by {
            assert(s.drop_first()[i] == s[i + 1]);
        }
        lemma_ascii_utf8_length(s.drop_first());
        assert(s[0] as u32 <= 0x7F);
    }
}

/// A canonical content hash passes the check that a manifest's blob hashes must pass.
pub proof fn lemma_canonical_hash_is_accepted(h: Seq<char>)
    requires
        is_canonical_hash(h),
    ensures
        content_hash_check(h) is Ok,
{
    assert forall|i: int| 0 <= i < h.len() implies (#[trigger] h[i] as u32) <= 0x7F by {
        assert(is_lower_hex_digit(h[i]));
    }
    lemma_ascii_utf8_length(h);
}

/// A blob placed by `store_blob` is accepted by the restore planner's blob check, at the
/// path `store_blob` gave, for a manifest entry that records the blob's fingerprint, as
/// long as the file there still holds those contents; if its contents changed, the check
/// reports the integrity failure.
pub proof fn law_stored_blob_passes_restore_check(
    blob_directory: Seq<ComponentModel>,
    stored: FileFingerprint,
    entry: SnapshotFile,
    observations: Seq<PathObservation>,
    found: FileFingerprint,
)
    requires
        is_canonical_hash(stored.content_hash@),
        entry.size_bytes == stored.size_bytes,
        entry.content_hash@ == stored.content_hash@,
        recorded_state(observations, blob_directory.push(ComponentModel::Normal(blob_name(stored.content_hash@))))
            == Ok::<PathState, (IoErrorKind, Seq<char>)>(PathState::File(Ok(found))),
    ensures
        same_fingerprint(found, stored) ==> verified_blob(entry, blob_directory, observations)
            == Ok::<Seq<ComponentModel>, (IoErrorKind, Seq<char>)>(blob_directory.push(ComponentModel::Normal(blob_name(stored.content_hash@)))),
        !same_fingerprint(found, stored) ==> verified_blob(entry, blob_directory, observations)
            == Err::<Seq<ComponentModel>, (IoErrorKind, Seq<char>)>(blob_integrity_failure()),
{
    lemma_canonical_hash_is_accepted(entry.content_hash@);
}

proof fn lemma_trimmed_keeps_hash(h: Seq<char>)
    requires
        is_canonical_hash(h),
    ensures
        trimmed(h).len() == 64,
{
    assert(!is_white_space(h[0])) by {
        assert(is_lower_hex_digit(h[0]));
    }
    assert(!is_white_space(h[63])) by {
        assert(is_lower_hex_digit(h[63]));
    }
    assert(skip_white_forward(h, 0, 64) == 0);
    assert(skip_white_backward(h, 0, 64) == 64);
}

/// A manifest whose ID was made by `snapshot_id_for_manifest` from its identity encoding
/// passes the restore planner's checks of format and identity for that same encoding:
/// planning goes on to its files.
pub proof fn law_sealed_manifest_passes_identity_check(request: RestoreSnapshotRequest, identity: Seq<u8>, observations: Seq<PathObservation>)
    requires
        request.manifest.format_version == SNAPSHOT_FORMAT_VERSION,
        request.manifest.snapshot_id@ == blake3_hex(identity),
        is_canonical_hash(request.manifest.snapshot_id@),
    ensures
        restore_plan(request, identity, observations) == planned_from(
            request.manifest.files@,
            0,
            Seq::empty(),
            request.locations@,
            request.storage_directory@.push(ComponentModel::Normal("blobs"@)),
            observations,
        ),
{
    lemma_trimmed_keeps_hash(request.manifest.snapshot_id@);
}

/// Whether the live save files and the blobs of a snapshot are as the snapshot left them:
/// each file resolves to its destination `dests[k]`, that destination holds the recorded
/// contents, and the file's blob holds them too.
pub open spec fn unchanged_since_snapshot(
    files: Seq<SnapshotFile>,
    locs: Seq<ResolvedLocation>,
    blob_dir: Seq<ComponentModel>,
    obs: Seq<PathObservation>,
    dests: Seq<Seq<ComponentModel>>,
) -> bool {
    &&& dests.len() == files.len()
    &&& forall|k: int| 0 <= k < files.len() ==> {
        &&& restore_destination(#[trigger] files[k], locs, obs) == Ok::<Seq<ComponentModel>, (IoErrorKind, Seq<char>)>(dests[k])
        &&& holds_contents(recorded_state(obs, dests[k]), files[k])
        &&& content_hash_check(files[k].content_hash@) is Ok
        &&& holds_contents(recorded_state(obs, blob_dir.push(ComponentModel::Normal(blob_name(files[k].content_hash@)))), files[k])
    }
}

/// A path found as a regular file with the recorded size and content hash.
pub open spec fn holds_contents(st: Result<PathState, (IoErrorKind, Seq<char>)>, file: SnapshotFile) -> bool {
    st matches Ok(PathState::File(Ok(fp))) && fp.size_bytes == file.size_bytes && fp.content_hash@ == file.content_hash@
}

proof fn lemma_no_overlap_found(
    planned: Seq<(SnapshotFile, Seq<ComponentModel>, Seq<ComponentModel>, RestoreDestinationState)>,
    dest: Seq<ComponentModel>,
    k: int,
)
    requires
        0 <= k,
        forall|j: int| k <= j < planned.len() ==> !overlapping(dest, #[trigger] planned[j].2),
    ensures
        first_overlap(planned, dest, k) is None,
    decreases planned.len() - k,
{
    if k < planned.len() {
        lemma_no_overlap_found(planned, dest, k + 1);
    }
}

proof fn lemma_unchanged_files_plan_identical(
    files: Seq<SnapshotFile>,
    i: int,
    planned: Seq<(SnapshotFile, Seq<ComponentModel>, Seq<ComponentModel>, RestoreDestinationState)>,
    locs: Seq<ResolvedLocation>,
    blob_dir: Seq<ComponentModel>,
    obs: Seq<PathObservation>,
    dests: Seq<Seq<ComponentModel>>,
)
    requires
        0 <= i <= files.len(),
        planned.len() == i,
        unchanged_since_snapshot(files, locs, blob_dir, obs, dests),
        forall|j: int, k: int| 0 <= j < files.len() && 0 <= k < files.len() && j != k ==> !overlapping(#[trigger] dests[j], #[trigger] dests[k]),
        forall|k: int| 0 <= k < i ==> (#[trigger] planned[k]).0 == files[k] && planned[k].2 == dests[k]
            && planned[k].3 == RestoreDestinationState::Identical,
    ensures
        planned_from(files, i, planned, locs, blob_dir, obs) matches Ok(out) && out.len() == files.len()
            && forall|k: int| 0 <= k < files.len() ==> (#[trigger] out[k]).0 == files[k] && out[k].2 == dests[k]
                && out[k].3 == RestoreDestinationState::Identical,
    decreases files.len() - i,
{
    if i < files.len() {
        let f = files[i];
        let d = dests[i];
        assert(restore_destination(f, locs, obs) == Ok::<Seq<ComponentModel>, (IoErrorKind, Seq<char>)>(d));
        assert forall|j: int| 0 <= j < planned.len() implies !overlapping(d, #[trigger] planned[j].2) by {
            assert(planned[j].2 == dests[j]);
            assert(!overlapping(dests[j], dests[i]));
        }
        lemma_no_overlap_found(planned, d, 0);
        let blob = blob_dir.push(ComponentModel::Normal(blob_name(f.content_hash@)));
        assert(holds_contents(recorded_state(obs, blob), f));
        assert(verified_blob(f, blob_dir, obs) == Ok::<Seq<ComponentModel>, (IoErrorKind, Seq<char>)>(blob));
        assert(holds_contents(recorded_state(obs, d), f));
        assert(destination_state(d, f, obs) == Ok::<RestoreDestinationState, (IoErrorKind, Seq<char>)>(RestoreDestinationState::Identical));
        let next = planned.push((f, blob, d, RestoreDestinationState::Identical));
        lemma_unchanged_files_plan_identical(files, i + 1, next, locs, blob_dir, obs, dests);
    }
}

/// Restoring a snapshot that nothing has touched since it was made changes nothing: when
/// the manifest is sealed (its ID derived from its identity encoding), every file still
/// resolves to a destination holding the recorded contents, every blob still holds them,
/// and no two destinations overlap, the planner's files (before `plan_snapshot_restore`
/// orders them by destination) are one per manifest file, in manifest order, each at its
/// destination and found identical.
pub proof fn law_unchanged_snapshot_restores_as_identical(
    request: RestoreSnapshotRequest,
    identity: Seq<u8>,
    obs: Seq<PathObservation>,
    dests: Seq<Seq<ComponentModel>>,
)
    requires
        request.manifest.format_version == SNAPSHOT_FORMAT_VERSION,
        request.manifest.snapshot_id@ == blake3_hex(identity),
        is_canonical_hash(request.manifest.snapshot_id@),
        unchanged_since_snapshot(request.manifest.files@, request.locations@,
            request.storage_directory@.push(ComponentModel::Normal("blobs"@)), obs, dests),
        forall|j: int, k: int| 0 <= j < dests.len() && 0 <= k < dests.len() && j != k ==> !overlapping(#[trigger] dests[j], #[trigger] dests[k]),
    ensures
        restore_plan(request, identity, obs) matches Ok(planned)
            && planned.len() == request.manifest.files@.len()
            && forall|k: int| 0 <= k < planned.len() ==> (#[trigger] planned[k]).0 == request.manifest.files@[k]
                && planned[k].2 == dests[k] && planned[k].3 == RestoreDestinationState::Identical,
{
    law_sealed_manifest_passes_identity_check(request, identity, obs);
    lemma_unchanged_files_plan_identical(request.manifest.files@, 0, Seq::empty(), request.locations@,
        request.storage_directory@.push(ComponentModel::Normal("blobs"@)), obs, dests);
}

/// Blobs are addressed by content: two fingerprints share a blob path exactly when
/// their content hashes are equal.
pub proof fn law_blob_paths_are_content_addressed(blob_directory: Seq<ComponentModel>, a: FileFingerprint, b: FileFingerprint)
    ensures
        (blob_directory.push(ComponentModel::Normal(blob_name(a.content_hash@)))
            == blob_directory.push(ComponentModel::Normal(blob_name(b.content_hash@))))
            <==> a.content_hash@ == b.content_hash@,
{
    let pa = blob_directory.push(ComponentModel::Normal(blob_name(a.content_hash@)));
    let pb = blob_directory.push(ComponentModel::Normal(blob_name(b.content_hash@)));
    reveal_strlit(".blob");
    if pa == pb {
        assert(pa[blob_directory.len() as int] == pb[blob_directory.len() as int]);
        let na = blob_name(a.content_hash@);
        let nb = blob_name(b.content_hash@);
        assert(na == nb);
        assert(na.len() == a.content_hash@.len() + 5);
        assert(a.content_hash@ =~= na.take(a.content_hash@.len() as int));
        assert(b.content_hash@ =~= nb.take(b.content_hash@.len() as int));
    }
}

} // verus!
