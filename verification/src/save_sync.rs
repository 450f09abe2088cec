use vstd::prelude::*;

use crate::error::{IoErrorKind, IoFailure};
use crate::hashing::{blake3_hex, content_hash, is_canonical_hash, ContentHasher};
use crate::library::positions;
use crate::models::SaveLocation;
use crate::paths::{
    chars_lt, join, law_manifest_paths_round_trip, lemma_path_lt_total, portable_name, manifest_relative_path, split, normalize_relative_path,
    normalized_relative_path, path_from_manifest, path_lt, path_starts_with, string_views, text_lt,
    ComponentModel, LocalPath, PathComponent,
};
use crate::text::{chars_of, char_is_lower_hex_digit, is_lower_hex_digit, push_decimal, decimal, trim_chars, trimmed};

verus! {

/// The state of a configured save location on disk.
#[derive(Debug, Clone, PartialEq)]
pub enum SaveLocationState {
    File,
    Directory,
    Missing,
    Unreadable(String),
    Unsupported,
}

/// A configured save location together with its state on disk.
#[derive(Debug, PartialEq)]
pub struct SaveLocationStatus {
    pub location: SaveLocation,
    pub state: SaveLocationState,
}

/// One file inside a save snapshot.
#[derive(Debug, PartialEq)]
pub struct SnapshotFile {
    pub location_id: String,
    pub relative_path: String,
    pub size_bytes: u64,
    pub content_hash: String,
}

impl Clone for SnapshotFile {
    fn clone(&self) -> (r: Self)
        ensures
            r == *self,
    {
        SnapshotFile {
            location_id: self.location_id.clone(),
            relative_path: self.relative_path.clone(),
            size_bytes: self.size_bytes,
            content_hash: self.content_hash.clone(),
        }
    }
}

/// The size and content hash of one file.
#[derive(Debug, PartialEq)]
pub struct FileFingerprint {
    pub size_bytes: u64,
    pub content_hash: String,
}

impl Clone for FileFingerprint {
    fn clone(&self) -> (r: Self)
        ensures
            r == *self,
    {
        FileFingerprint { size_bytes: self.size_bytes, content_hash: self.content_hash.clone() }
    }
}

/// The fingerprint of a file whose contents are `data`.
pub fn fingerprint_of(data: &[u8]) -> (r: FileFingerprint)
    ensures
        r.size_bytes == data@.len(),
        r.content_hash@ == blake3_hex(data@),
        is_canonical_hash(r.content_hash@),
{
    FileFingerprint { size_bytes: data.len() as u64, content_hash: content_hash(data) }
}

/// The fingerprint of everything that `hasher` has been given.
pub fn fingerprint_from(hasher: &ContentHasher) -> (r: FileFingerprint)
    requires
        hasher.well_formed(),
    ensures
        r.size_bytes == hasher@.len(),
        r.content_hash@ == blake3_hex(hasher@),
        is_canonical_hash(r.content_hash@),
{
    FileFingerprint { size_bytes: hasher.size_bytes(), content_hash: hasher.hex_digest() }
}

/// A blob kept in the local content store.
#[derive(Debug, PartialEq)]
pub struct StoredBlob {
    pub path: LocalPath,
    pub fingerprint: FileFingerprint,
    pub reused_existing_blob: bool,
}

/// The current version of the snapshot format.
pub const SNAPSHOT_FORMAT_VERSION: u32 = 1;

/// Metadata describing one complete save snapshot.
#[derive(Debug, PartialEq)]
pub struct SnapshotManifest {
    pub format_version: u32,
    pub snapshot_id: String,
    pub vn_sync_id: String,
    pub device_id: String,
    pub created_at: String,
    pub parent_snapshot_id: Option<String>,
    pub files: Vec<SnapshotFile>,
}

impl SnapshotManifest {
    /// The manifest's fields, with the file records as a sequence.
    pub open spec fn model(&self) -> (u32, Seq<char>, Seq<char>, Seq<char>, Seq<char>, Option<String>, Seq<SnapshotFile>) {
        (self.format_version, self.snapshot_id@, self.vn_sync_id@, self.device_id@, self.created_at@,
            self.parent_snapshot_id, self.files@)
    }
}

impl Clone for SnapshotManifest {
    fn clone(&self) -> (r: Self)
        ensures
            r.model() == self.model(),
    {
        let files = clone_files(&self.files);
        let parent = match &self.parent_snapshot_id {
            Some(p) => Some(p.clone()),
            None => None,
        };
        SnapshotManifest {
            format_version: self.format_version,
            snapshot_id: self.snapshot_id.clone(),
            vn_sync_id: self.vn_sync_id.clone(),
            device_id: self.device_id.clone(),
            created_at: self.created_at.clone(),
            parent_snapshot_id: parent,
            files,
        }
    }
}

/// A copy of every file record, in order.
pub fn clone_files(v: &Vec<SnapshotFile>) -> (r: Vec<SnapshotFile>)
    ensures
        r@ == v@,
{
    let mut r: Vec<SnapshotFile> = Vec::new();
    let mut i: usize = 0;
    while i < v.len()
        invariant
            i <= v.len(),
            r@ == v@.take(i as int),
        decreases v.len() - i,
    {
        r.push(v[i].clone());
        assert(v@.take(i + 1) =~= v@.take(i as int).push(v@[i as int]));
        i = i + 1;
    }
    assert(v@.take(v.len() as int) =~= v@);
    r
}

/// What `fs::symlink_metadata` reports for a path, and for a regular file also the
/// outcome of fingerprinting its contents.
#[derive(Debug, PartialEq)]
pub enum PathState {
    Failed(IoFailure),
    Symlink,
    Directory,
    Other,
    File(Result<FileFingerprint, IoFailure>),
}

/// The state in which one path was found.
#[derive(Debug, PartialEq)]
pub struct PathObservation {
    pub path: LocalPath,
    pub state: PathState,
}

/// The state recorded for path `p`: that of the first observation of `p`.
pub open spec fn observed_state(obs: Seq<PathObservation>, p: Seq<ComponentModel>) -> Option<PathState>
    decreases obs.len(),
{
    if obs.len() == 0 {
        None
    } else if obs[0].path@ == p {
        Some(obs[0].state)
    } else {
        observed_state(obs.drop_first(), p)
    }
}

/// The failure reported when a path's state was needed but never observed.
pub open spec fn unobserved_failure() -> (IoErrorKind, Seq<char>) {
    (IoErrorKind::Other, "The path was not inspected"@)
}

fn find_observation(obs: &Vec<PathObservation>, p: &LocalPath) -> (r: Option<usize>)
    ensures
        match r {
            Some(i) => i < obs@.len() && observed_state(obs@, p@) == Some(obs@[i as int].state),
            None => observed_state(obs@, p@) is None,
        },
{
    let mut i: usize = 0;
    assert(obs@.skip(0) =~= obs@);
    while i < obs.len()
        invariant
            i <= obs.len(),
            observed_state(obs@, p@) == observed_state(obs@.skip(i as int), p@),
        decreases obs.len() - i,
    {
        assert(obs@.skip(i as int)[0] == obs@[i as int]);
        assert(obs@.skip(i as int).drop_first() =~= obs@.skip(i + 1));
        if obs[i].path.same_as(p) {
            return Some(i);
        }
        i = i + 1;
    }
    None
}

/// A configured save location together with the components of its configured path.
#[derive(Debug, PartialEq)]
pub struct ResolvedLocation {
    pub location: SaveLocation,
    pub root: LocalPath,
}

/// Inputs required to plan the restoration of one snapshot.
#[derive(Debug, PartialEq)]
pub struct RestoreSnapshotRequest {
    pub manifest: SnapshotManifest,
    pub locations: Vec<ResolvedLocation>,
    pub storage_directory: LocalPath,
}

/// How a live save file compares with its snapshot version.
#[derive(Debug, PartialEq)]
pub enum RestoreDestinationState {
    Missing,
    Identical,
    Different(FileFingerprint),
}

/// One blob and the live save path it would restore.
#[derive(Debug, PartialEq)]
pub struct PlannedRestoreFile {
    pub snapshot_file: SnapshotFile,
    pub source_blob_path: LocalPath,
    pub destination_path: LocalPath,
    pub destination_state: RestoreDestinationState,
}

/// Every filesystem change that restoring a snapshot would make.
#[derive(Debug, PartialEq)]
pub struct RestorePlan {
    pub snapshot_id: String,
    pub files: Vec<PlannedRestoreFile>,
}

/// Why a snapshot cannot be restored.
#[derive(Debug, PartialEq)]
pub enum RestorePlanError {
    Failure(IoFailure),
    OverlappingPaths { existing: LocalPath, destination: LocalPath },
}

pub open spec fn first_location_from(ids: Seq<Seq<char>>, id: Seq<char>, i: int) -> Option<int>
    decreases ids.len() - i,
{
    if i < 0 || i >= ids.len() {
        None
    } else if ids[i] == id {
        Some(i)
    } else {
        first_location_from(ids, id, i + 1)
    }
}

pub open spec fn no_location_failure(id: Seq<char>) -> (IoErrorKind, Seq<char>) {
    (IoErrorKind::NotFound, "No configured save location matches "@ + id)
}

pub open spec fn duplicate_location_failure(id: Seq<char>) -> (IoErrorKind, Seq<char>) {
    (IoErrorKind::InvalidInput, "Multiple save locations use the ID "@ + id)
}

/// The index of the one location whose id is `id`, or the failure when there is none
/// or more than one.
pub open spec fn unique_location(ids: Seq<Seq<char>>, id: Seq<char>) -> Result<int, (IoErrorKind, Seq<char>)> {
    match first_location_from(ids, id, 0) {
        None => Err(no_location_failure(id)),
        Some(i) => match first_location_from(ids, id, i + 1) {
            Some(_) => Err(duplicate_location_failure(id)),
            None => Ok(i),
        },
    }
}

pub open spec fn location_ids(locations: Seq<SaveLocation>) -> Seq<Seq<char>> {
    locations.map_values(|l: SaveLocation| l.id@)
}

pub open spec fn resolved_ids(locations: Seq<ResolvedLocation>) -> Seq<Seq<char>> {
    locations.map_values(|l: ResolvedLocation| l.location.id@)
}

fn failure_naming(kind: IoErrorKind, text: &str, name: &String) -> (r: IoFailure)
    ensures
        r.kind == kind,
        r.message@ == text@ + name@,
{
    let mut message = text.to_owned();
    message.append(name.as_str());
    IoFailure { kind, message }
}

proof fn lemma_first_location_bounds(ids: Seq<Seq<char>>, id: Seq<char>, i: int)
    requires
        0 <= i,
    ensures
        first_location_from(ids, id, i) matches Some(j) ==> i <= j < ids.len() && ids[j] == id,
    decreases ids.len() - i,
{
    if i < ids.len() && ids[i] != id {
        lemma_first_location_bounds(ids, id, i + 1);
    }
}

fn unique_location_index(id: &String, ids: &Vec<&String>) -> (r: Result<usize, IoFailure>)
    ensures
        match r {
            Ok(i) => unique_location(ids@.map_values(|s: &String| s@), id@) == Ok::<int, (IoErrorKind, Seq<char>)>(i as int),
            Err(e) => unique_location(ids@.map_values(|s: &String| s@), id@) == Err::<int, (IoErrorKind, Seq<char>)>(e.model()),
        },
{
    let ghost m = ids@.map_values(|s: &String| s@);
    let mut found: Option<usize> = None;
    let mut i: usize = 0;
    while i < ids.len()
        invariant
            i <= ids.len(),
            m == ids@.map_values(|s: &String| s@),
            match found {
                None => first_location_from(m, id@, 0) == first_location_from(m, id@, i as int),
                Some(f) => f < i && first_location_from(m, id@, 0) == Some(f as int)
                    && first_location_from(m, id@, f + 1) == first_location_from(m, id@, i as int),
            },
        decreases ids.len() - i,
    {
        if ids[i].eq(id) {
            if found.is_some() {
                return Err(failure_naming(IoErrorKind::InvalidInput, "Multiple save locations use the ID ", id));
            }
            found = Some(i);
        }
        i = i + 1;
    }
    match found {
        Some(f) => Ok(f),
        None => Err(failure_naming(IoErrorKind::NotFound, "No configured save location matches ", id)),
    }
}

/// Finds the one configured location whose id is `location_id`.
pub fn location_for_restore(location_id: String, locations: &Vec<SaveLocation>) -> (r: Result<SaveLocation, IoFailure>)
    ensures
        match r {
            Ok(l) => unique_location(location_ids(locations@), location_id@) matches Ok(i) && l == locations@[i],
            Err(e) => unique_location(location_ids(locations@), location_id@) == Err::<int, (IoErrorKind, Seq<char>)>(e.model()),
        },
{
    let mut ids: Vec<&String> = Vec::new();
    let mut k: usize = 0;
    while k < locations.len()
        invariant
            k <= locations.len(),
            ids@.len() == k,
            forall|j: int| 0 <= j < k ==> *(#[trigger] ids@[j]) == locations@[j].id,
        decreases locations.len() - k,
    {
        ids.push(&locations[k].id);
        k = k + 1;
    }
    assert(ids@.map_values(|s: &String| s@) =~= location_ids(locations@));
    match unique_location_index(&location_id, &ids) {
        Ok(i) => {
            proof { lemma_first_location_bounds(location_ids(locations@), location_id@, 0); }
            Ok(locations[i].clone())
        },
        Err(e) => Err(e),
    }
}

/// The state recorded for `p`, or the failure for a path that was never observed.
pub open spec fn recorded_state(obs: Seq<PathObservation>, p: Seq<ComponentModel>) -> Result<PathState, (IoErrorKind, Seq<char>)> {
    match observed_state(obs, p) {
        Some(st) => Ok(st),
        None => Err(unobserved_failure()),
    }
}

fn observe<'a>(obs: &'a Vec<PathObservation>, p: &LocalPath) -> (r: Result<&'a PathState, IoFailure>)
    ensures
        match r {
            Ok(st) => recorded_state(obs@, p@) == Ok::<PathState, (IoErrorKind, Seq<char>)>(*st),
            Err(e) => recorded_state(obs@, p@) == Err::<PathState, (IoErrorKind, Seq<char>)>(e.model()),
        },
{
    match find_observation(obs, p) {
        Some(i) => Ok(&obs[i].state),
        None => Err(IoFailure::new(IoErrorKind::Other, "The path was not inspected")),
    }
}

pub open spec fn normal_components(parts: Seq<Seq<char>>) -> Seq<ComponentModel> {
    parts.map_values(|p: Seq<char>| ComponentModel::Normal(p))
}

/// Where a file restored to the location itself (a direct save file) goes.
pub open spec fn direct_destination(root: Seq<ComponentModel>, st: Result<PathState, (IoErrorKind, Seq<char>)>) -> Result<Seq<ComponentModel>, (IoErrorKind, Seq<char>)> {
    match st {
        Err(e) => Err(e),
        Ok(PathState::Symlink) => Err((IoErrorKind::InvalidInput, "A direct save location cannot be a symbolic link"@)),
        Ok(PathState::Directory) => Err((IoErrorKind::InvalidInput, "A direct save location points to a directory"@)),
        Ok(PathState::Other) => Err((IoErrorKind::InvalidInput, "A direct save location is not a regular file"@)),
        Ok(PathState::File(_)) => Ok(root),
        Ok(PathState::Failed(e)) => if e.kind == IoErrorKind::NotFound { Ok(root) } else { Err(e.model()) },
    }
}

/// Where a file restored below a save directory goes.
pub open spec fn nested_destination(root: Seq<ComponentModel>, parts: Seq<Seq<char>>, st: Result<PathState, (IoErrorKind, Seq<char>)>) -> Result<Seq<ComponentModel>, (IoErrorKind, Seq<char>)> {
    match st {
        Err(e) => Err(e),
        Ok(PathState::Symlink) => Err((IoErrorKind::InvalidInput, "A save directory cannot be a symbolic link"@)),
        Ok(PathState::Directory) => Ok(root + normal_components(parts)),
        Ok(PathState::Failed(e)) => if e.kind == IoErrorKind::NotFound { Ok(root + normal_components(parts)) } else { Err(e.model()) },
        Ok(_) => Err((IoErrorKind::InvalidInput, "A save directory location is not a directory"@)),
    }
}

pub open spec fn empty_location_failure() -> (IoErrorKind, Seq<char>) {
    (IoErrorKind::InvalidInput, "A restore location cannot have an empty path"@)
}

/// The live path to which one snapshot file would be restored.
pub open spec fn restore_destination(file: SnapshotFile, locs: Seq<ResolvedLocation>, obs: Seq<PathObservation>) -> Result<Seq<ComponentModel>, (IoErrorKind, Seq<char>)> {
    match unique_location(resolved_ids(locs), file.location_id@) {
        Err(e) => Err(e),
        Ok(i) => {
            let loc = locs[i];
            if trimmed(loc.location.path@).len() == 0 {
                Err(empty_location_failure())
            } else {
                match manifest_relative_path(file.relative_path@) {
                    Err(e) => Err(e),
                    Ok(None) => direct_destination(loc.root@, recorded_state(obs, loc.root@)),
                    Ok(Some(parts)) => nested_destination(loc.root@, parts, recorded_state(obs, loc.root@)),
                }
            }
        },
    }
}

fn resolved_location_index(id: &String, locs: &Vec<ResolvedLocation>) -> (r: Result<usize, IoFailure>)
    ensures
        match r {
            Ok(i) => i < locs@.len() && unique_location(resolved_ids(locs@), id@) == Ok::<int, (IoErrorKind, Seq<char>)>(i as int),
            Err(e) => unique_location(resolved_ids(locs@), id@) == Err::<int, (IoErrorKind, Seq<char>)>(e.model()),
        },
{
    let mut ids: Vec<&String> = Vec::new();
    let mut k: usize = 0;
    while k < locs.len()
        invariant
            k <= locs.len(),
            ids@.len() == k,
            forall|j: int| 0 <= j < k ==> *(#[trigger] ids@[j]) == locs@[j].location.id,
        decreases locs.len() - k,
    {
        ids.push(&locs[k].location.id);
        k = k + 1;
    }
    assert(ids@.map_values(|s: &String| s@) =~= resolved_ids(locs@));
    let r = unique_location_index(id, &ids);
    proof { lemma_first_location_bounds(resolved_ids(locs@), id@, 0); }
    r
}

fn normal_path(root: &LocalPath, parts: Vec<String>) -> (r: LocalPath)
    ensures
        r@ == root@ + normal_components(string_views(parts@)),
{
    let mut r = root.clone();
    let mut i: usize = 0;
    while i < parts.len()
        invariant
            i <= parts.len(),
            r@ == root@ + normal_components(string_views(parts@.take(i as int))),
        decreases parts.len() - i,
    {
        let ghost before = r@;
        r = r.join_name(parts[i].clone());
        assert(string_views(parts@.take(i + 1)) =~= string_views(parts@.take(i as int)).push(parts@[i as int]@));
        assert(normal_components(string_views(parts@.take(i + 1))) =~= normal_components(string_views(parts@.take(i as int))).push(ComponentModel::Normal(parts@[i as int]@)));
        i = i + 1;
    }
    assert(parts@.take(parts.len() as int) =~= parts@);
    r
}

/// The live path to which `file` would be restored.
pub fn destination_path_for_snapshot_file(file: &SnapshotFile, locs: &Vec<ResolvedLocation>, obs: &Vec<PathObservation>) -> (r: Result<LocalPath, IoFailure>)
    ensures
        match r {
            Ok(p) => restore_destination(*file, locs@, obs@) == Ok::<Seq<ComponentModel>, (IoErrorKind, Seq<char>)>(p@),
            Err(e) => restore_destination(*file, locs@, obs@) == Err::<Seq<ComponentModel>, (IoErrorKind, Seq<char>)>(e.model()),
        },
{
    let i = match resolved_location_index(&file.location_id, locs) {
        Ok(i) => i,
        Err(e) => return Err(e),
    };
    let loc = &locs[i];
    let path_chars = chars_of(loc.location.path.as_str());
    if trim_chars(&path_chars).len() == 0 {
        return Err(IoFailure::new(IoErrorKind::InvalidInput, "A restore location cannot have an empty path"));
    }
    let relative = match path_from_manifest(file.relative_path.clone()) {
        Ok(r) => r,
        Err(e) => return Err(e),
    };
    let state = observe(obs, &loc.root);
    match relative {
        None => match state {
            Err(e) => Err(e),
            Ok(PathState::Symlink) => Err(IoFailure::new(IoErrorKind::InvalidInput, "A direct save location cannot be a symbolic link")),
            Ok(PathState::Directory) => Err(IoFailure::new(IoErrorKind::InvalidInput, "A direct save location points to a directory")),
            Ok(PathState::Other) => Err(IoFailure::new(IoErrorKind::InvalidInput, "A direct save location is not a regular file")),
            Ok(PathState::File(_)) => Ok(loc.root.clone()),
            Ok(PathState::Failed(e)) => if e.kind == IoErrorKind::NotFound { Ok(loc.root.clone()) } else { Err(e.duplicate()) },
        },
        Some(parts) => match state {
            Err(e) => Err(e),
            Ok(PathState::Symlink) => Err(IoFailure::new(IoErrorKind::InvalidInput, "A save directory cannot be a symbolic link")),
            Ok(PathState::Directory) => Ok(normal_path(&loc.root, parts)),
            Ok(PathState::Failed(e)) => if e.kind == IoErrorKind::NotFound { Ok(normal_path(&loc.root, parts)) } else { Err(e.duplicate()) },
            Ok(_) => Err(IoFailure::new(IoErrorKind::InvalidInput, "A save directory location is not a directory")),
        },
    }
}

/// A path inside `root`: `root` itself, or `root` followed by plain names that neither
/// climb out (`..`), stay put (`.`), are empty nor hold `:` or a NUL character.
pub open spec fn stays_inside(d: Seq<ComponentModel>, root: Seq<ComponentModel>) -> bool {
    &&& path_starts_with(d, root)
    &&& forall|j: int| root.len() <= j < d.len() ==> (#[trigger] d[j] matches ComponentModel::Normal(n) && !crate::paths::is_unsafe_manifest_part(n))
}

/// Every restore destination lies inside the configured location whose ID the snapshot
/// file names: a manifest path can never send a restored file elsewhere.
pub proof fn law_restore_destination_stays_in_its_location(file: SnapshotFile, locs: Seq<ResolvedLocation>, obs: Seq<PathObservation>)
    ensures
        restore_destination(file, locs, obs) matches Ok(d) ==> exists|i: int| 0 <= i < locs.len()
            && #[trigger] locs[i].location.id@ == file.location_id@ && stays_inside(d, locs[i].root@),
{
    if let Ok(d) = restore_destination(file, locs, obs) {
        let ids = resolved_ids(locs);
        lemma_first_location_bounds(ids, file.location_id@, 0);
        let i = unique_location(ids, file.location_id@)->Ok_0;
        assert(ids[i] == locs[i].location.id@);
        let root = locs[i].root@;
        match manifest_relative_path(file.relative_path@) {
            Ok(None) => {
                assert(d == root);
                assert(d.take(root.len() as int) =~= root);
            },
            Ok(Some(parts)) => {
                assert(d == root + normal_components(parts));
                assert(d.take(root.len() as int) =~= root);
                assert forall|j: int| root.len() <= j < d.len() implies (#[trigger] d[j] matches ComponentModel::Normal(n) && !crate::paths::is_unsafe_manifest_part(n)) by {
                    assert(d[j] == ComponentModel::Normal(parts[j - root.len()]));
                    assert(parts == split(file.relative_path@, '/'));
                    assert(!crate::paths::is_unsafe_manifest_part(split(file.relative_path@, '/')[j - root.len()]));
                }
            },
            Err(_) => {},
        }
        assert(locs[i].location.id@ == file.location_id@ && stays_inside(d, locs[i].root@));
    }
}

proof fn lemma_no_location_from(ids: Seq<Seq<char>>, id: Seq<char>, j: int)
    requires
        0 <= j,
        forall|k: int| j <= k < ids.len() ==> ids[k] != id,
    ensures
        first_location_from(ids, id, j) is None,
    decreases ids.len() - j,
{
    if j < ids.len() {
        lemma_no_location_from(ids, id, j + 1);
    }
}

proof fn lemma_location_found_at(ids: Seq<Seq<char>>, id: Seq<char>, j: int, i: int)
    requires
        0 <= j <= i < ids.len(),
        ids[i] == id,
        forall|k: int| j <= k < i ==> ids[k] != id,
    ensures
        first_location_from(ids, id, j) == Some(i),
    decreases i - j,
{
    if j < i {
        lemma_location_found_at(ids, id, j + 1, i);
    }
}

/// Whether a location root, in the state in which it was found, takes back a restored
/// file: a save directory that is there or missing, for a file below it, and a save file
/// that is there or missing, for a location that is itself the save file.
pub open spec fn root_takes_file_back(nested: bool, st: PathState) -> bool {
    match st {
        PathState::Directory => nested,
        PathState::File(_) => !nested,
        PathState::Failed(e) => e.kind == IoErrorKind::NotFound,
        _ => false,
    }
}

/// A save file goes back where it was found: a file found below a location's root under
/// portable names, recorded in a manifest entry with that location's ID and those names
/// in manifest form, is restored to the root followed by the same names, as long as the
/// location is configured once under that ID, with a path, and its root takes the file
/// back.
pub proof fn law_files_are_restored_where_they_were_found(file: SnapshotFile, names: Seq<Seq<char>>, locs: Seq<ResolvedLocation>, obs: Seq<PathObservation>, i: int)
    requires
        forall|k: int| 0 <= k < names.len() ==> portable_name(#[trigger] names[k]),
        normalized_relative_path(normal_components(names)) == Ok::<Seq<char>, (IoErrorKind, Seq<char>)>(file.relative_path@),
        0 <= i < locs.len(),
        locs[i].location.id@ == file.location_id@,
        forall|j: int| 0 <= j < locs.len() && j != i ==> (#[trigger] locs[j]).location.id@ != file.location_id@,
        trimmed(locs[i].location.path@).len() > 0,
        recorded_state(obs, locs[i].root@) matches Ok(st) && root_takes_file_back(names.len() > 0, st),
    ensures
        restore_destination(file, locs, obs) == Ok::<Seq<ComponentModel>, (IoErrorKind, Seq<char>)>(locs[i].root@ + normal_components(names)),
{
    let ids = resolved_ids(locs);
    let id = file.location_id@;
    lemma_location_found_at(ids, id, 0, i);
    lemma_no_location_from(ids, id, i + 1);
    assert(unique_location(ids, id) == Ok::<int, (IoErrorKind, Seq<char>)>(i));
    law_manifest_paths_round_trip(names);
    assert(normal_components(names) =~= names.map_values(|n: Seq<char>| ComponentModel::Normal(n)));
    assert(file.relative_path@ == join(names, '/'));
    if names.len() == 0 {
        assert(locs[i].root@ + normal_components(names) =~= locs[i].root@);
    }
}

pub open spec fn invalid_hash_failure() -> (IoErrorKind, Seq<char>) {
    (IoErrorKind::InvalidData, "Snapshot contains an invalid blob hash"@)
}

pub open spec fn non_canonical_hash_failure() -> (IoErrorKind, Seq<char>) {
    (IoErrorKind::InvalidData, "Snapshot contains a non canonical blob hash"@)
}

/// The check that a recorded content hash names a blob safely: `Ok` for 64 lower-case
/// hexadecimal digits, else the failure for a wrong length (in UTF-8 bytes) or for any
/// other character.
pub open spec fn content_hash_check(h: Seq<char>) -> Result<(), (IoErrorKind, Seq<char>)> {
    if vstd::utf8::encode_utf8(h).len() != 64 {
        Err(invalid_hash_failure())
    } else if !(forall|i: int| 0 <= i < h.len() ==> is_lower_hex_digit(#[trigger] h[i])) {
        Err(non_canonical_hash_failure())
    } else {
        Ok(())
    }
}

pub fn check_content_hash(h: &String) -> (r: Result<(), IoFailure>)
    ensures
        match r {
            Ok(()) => content_hash_check(h@) == Ok::<(), (IoErrorKind, Seq<char>)>(()),
            Err(e) => content_hash_check(h@) == Err::<(), (IoErrorKind, Seq<char>)>(e.model()),
        },
{
    let text = h.as_str();
    if text.as_bytes().len() != 64 {
        return Err(IoFailure::new(IoErrorKind::InvalidData, "Snapshot contains an invalid blob hash"));
    }
    let cs = chars_of(text);
    let mut i: usize = 0;
    while i < cs.len()
        invariant
            i <= cs.len(),
            cs@ == h@,
            vstd::utf8::encode_utf8(h@).len() == 64,
            forall|k: int| 0 <= k < i ==> is_lower_hex_digit(#[trigger] cs@[k]),
        decreases cs.len() - i,
    {
        if !char_is_lower_hex_digit(cs[i]) {
            return Err(IoFailure::new(IoErrorKind::InvalidData, "Snapshot contains a non canonical blob hash"));
        }
        i = i + 1;
    }
    Ok(())
}

/// The name of the blob that holds contents with hash `h`.
pub open spec fn blob_name(h: Seq<char>) -> Seq<char> {
    h + ".blob"@
}

pub open spec fn not_regular_blob_failure() -> (IoErrorKind, Seq<char>) {
    (IoErrorKind::InvalidData, "Snapshot blob is not a regular file"@)
}

pub open spec fn blob_integrity_failure() -> (IoErrorKind, Seq<char>) {
    (IoErrorKind::InvalidData, "Snapshot blob failed integrity verification"@)
}

/// Where the blob of one manifest entry is, provided it holds exactly the recorded contents.
pub open spec fn verified_blob(file: SnapshotFile, blob_dir: Seq<ComponentModel>, obs: Seq<PathObservation>) -> Result<Seq<ComponentModel>, (IoErrorKind, Seq<char>)> {
    match content_hash_check(file.content_hash@) {
        Err(e) => Err(e),
        Ok(()) => {
            let p = blob_dir.push(ComponentModel::Normal(blob_name(file.content_hash@)));
            match recorded_state(obs, p) {
                Err(e) => Err(e),
                Ok(PathState::Failed(e)) => Err(e.model()),
                Ok(PathState::File(Err(e))) => Err(e.model()),
                Ok(PathState::File(Ok(fp))) => if fp.size_bytes != file.size_bytes || fp.content_hash@ != file.content_hash@ {
                    Err(blob_integrity_failure())
                } else {
                    Ok(p)
                },
                Ok(_) => Err(not_regular_blob_failure()),
            }
        },
    }
}

/// Locates the blob referenced by one manifest entry and checks that it holds the recorded contents.
pub fn verified_blob_path(file: &SnapshotFile, blob_dir: &LocalPath, obs: &Vec<PathObservation>) -> (r: Result<LocalPath, IoFailure>)
    ensures
        match r {
            Ok(p) => verified_blob(*file, blob_dir@, obs@) == Ok::<Seq<ComponentModel>, (IoErrorKind, Seq<char>)>(p@),
            Err(e) => verified_blob(*file, blob_dir@, obs@) == Err::<Seq<ComponentModel>, (IoErrorKind, Seq<char>)>(e.model()),
        },
{
    match check_content_hash(&file.content_hash) {
        Err(e) => return Err(e),
        Ok(()) => {},
    }
    let mut name = file.content_hash.clone();
    name.append(".blob");
    let p = blob_dir.join_name(name);
    match observe(obs, &p) {
        Err(e) => Err(e),
        Ok(PathState::Failed(e)) => Err(e.duplicate()),
        Ok(PathState::File(Err(e))) => Err(e.duplicate()),
        Ok(PathState::File(Ok(fp))) => {
            if fp.size_bytes != file.size_bytes || !fp.content_hash.eq(&file.content_hash) {
                Err(IoFailure::new(IoErrorKind::InvalidData, "Snapshot blob failed integrity verification"))
            } else {
                Ok(p)
            }
        },
        Ok(_) => Err(IoFailure::new(IoErrorKind::InvalidData, "Snapshot blob is not a regular file")),
    }
}

/// How the live file at `dest` compares with the snapshot version `file`.
pub open spec fn destination_state(dest: Seq<ComponentModel>, file: SnapshotFile, obs: Seq<PathObservation>) -> Result<RestoreDestinationState, (IoErrorKind, Seq<char>)> {
    match recorded_state(obs, dest) {
        Err(e) => Err(e),
        Ok(PathState::Failed(e)) => if e.kind == IoErrorKind::NotFound { Ok(RestoreDestinationState::Missing) } else { Err(e.model()) },
        Ok(PathState::Symlink) => Err((IoErrorKind::InvalidInput, "A restore destination cannot be a symbolic link"@)),
        Ok(PathState::File(Err(e))) => Err(e.model()),
        Ok(PathState::File(Ok(fp))) => if fp.size_bytes == file.size_bytes && fp.content_hash@ == file.content_hash@ {
            Ok(RestoreDestinationState::Identical)
        } else {
            Ok(RestoreDestinationState::Different(fp))
        },
        Ok(_) => Err((IoErrorKind::InvalidInput, "A restore destination is not a regular file"@)),
    }
}

/// A live save counts as already restored only when it is a regular file with the very
/// contents the snapshot recorded: the same content hash and the same size. A regular file
/// with any other contents is reported as different, with its own fingerprint.
pub proof fn law_only_the_recorded_contents_count_as_identical(dest: Seq<ComponentModel>, file: SnapshotFile, obs: Seq<PathObservation>)
    ensures
        destination_state(dest, file, obs) == Ok::<RestoreDestinationState, (IoErrorKind, Seq<char>)>(RestoreDestinationState::Identical)
            ==> (recorded_state(obs, dest) matches Ok(PathState::File(Ok(fp)))
                && fp.content_hash@ == file.content_hash@ && fp.size_bytes == file.size_bytes),
        recorded_state(obs, dest) matches Ok(PathState::File(Ok(fp)))
            ==> (fp.content_hash@ != file.content_hash@ || fp.size_bytes != file.size_bytes
                ==> destination_state(dest, file, obs) == Ok::<RestoreDestinationState, (IoErrorKind, Seq<char>)>(RestoreDestinationState::Different(fp))),
{
}

/// Compares a restore destination with the contents the snapshot expects there.
pub fn inspect_restore_destination(dest: &LocalPath, file: &SnapshotFile, obs: &Vec<PathObservation>) -> (r: Result<RestoreDestinationState, IoFailure>)
    ensures
        match r {
            Ok(st) => destination_state(dest@, *file, obs@) == Ok::<RestoreDestinationState, (IoErrorKind, Seq<char>)>(st),
            Err(e) => destination_state(dest@, *file, obs@) == Err::<RestoreDestinationState, (IoErrorKind, Seq<char>)>(e.model()),
        },
{
    match observe(obs, dest) {
        Err(e) => Err(e),
        Ok(PathState::Failed(e)) => if e.kind == IoErrorKind::NotFound { Ok(RestoreDestinationState::Missing) } else { Err(e.duplicate()) },
        Ok(PathState::Symlink) => Err(IoFailure::new(IoErrorKind::InvalidInput, "A restore destination cannot be a symbolic link")),
        Ok(PathState::File(Err(e))) => Err(e.duplicate()),
        Ok(PathState::File(Ok(fp))) => {
            if fp.size_bytes == file.size_bytes && fp.content_hash.eq(&file.content_hash) {
                Ok(RestoreDestinationState::Identical)
            } else {
                Ok(RestoreDestinationState::Different(fp.clone()))
            }
        },
        Ok(_) => Err(IoFailure::new(IoErrorKind::InvalidInput, "A restore destination is not a regular file")),
    }
}

/// Two restore destinations overlap when they are the same path or one lies below the other.
pub open spec fn overlapping(a: Seq<ComponentModel>, b: Seq<ComponentModel>) -> bool {
    a == b || path_starts_with(a, b) || path_starts_with(b, a)
}

impl PlannedRestoreFile {
    pub open spec fn model(&self) -> (SnapshotFile, Seq<ComponentModel>, Seq<ComponentModel>, RestoreDestinationState) {
        (self.snapshot_file, self.source_blob_path@, self.destination_path@, self.destination_state)
    }
}

/// Why a restore cannot be planned, as plain values.
pub enum PlanErrorModel {
    Failure((IoErrorKind, Seq<char>)),
    Overlap(Seq<ComponentModel>, Seq<ComponentModel>),
}

impl RestorePlanError {
    pub open spec fn model(&self) -> PlanErrorModel {
        match self {
            RestorePlanError::Failure(e) => PlanErrorModel::Failure(e.model()),
            RestorePlanError::OverlappingPaths { existing, destination } => PlanErrorModel::Overlap(existing@, destination@),
        }
    }
}

/// The first planned destination, from index `k` on, that overlaps `dest`.
pub open spec fn first_overlap(planned: Seq<(SnapshotFile, Seq<ComponentModel>, Seq<ComponentModel>, RestoreDestinationState)>, dest: Seq<ComponentModel>, k: int) -> Option<int>
    decreases planned.len() - k,
{
    if k < 0 || k >= planned.len() {
        None
    } else if overlapping(dest, planned[k].2) {
        Some(k)
    } else {
        first_overlap(planned, dest, k + 1)
    }
}

/// Plans the files of a manifest from index `i` on, after the files already `planned`,
/// in manifest order, stopping at the first file that cannot be restored.
pub open spec fn planned_from(
    files: Seq<SnapshotFile>,
    i: int,
    planned: Seq<(SnapshotFile, Seq<ComponentModel>, Seq<ComponentModel>, RestoreDestinationState)>,
    locs: Seq<ResolvedLocation>,
    blob_dir: Seq<ComponentModel>,
    obs: Seq<PathObservation>,
) -> Result<Seq<(SnapshotFile, Seq<ComponentModel>, Seq<ComponentModel>, RestoreDestinationState)>, PlanErrorModel>
    decreases files.len() - i,
{
    if i < 0 || i >= files.len() {
        Ok(planned)
    } else {
        match restore_destination(files[i], locs, obs) {
            Err(e) => Err(PlanErrorModel::Failure(e)),
            Ok(dest) => match first_overlap(planned, dest, 0) {
                Some(k) => Err(PlanErrorModel::Overlap(planned[k].2, dest)),
                None => match verified_blob(files[i], blob_dir, obs) {
                    Err(e) => Err(PlanErrorModel::Failure(e)),
                    Ok(source) => match destination_state(dest, files[i], obs) {
                        Err(e) => Err(PlanErrorModel::Failure(e)),
                        Ok(st) => planned_from(files, i + 1, planned.push((files[i], source, dest, st)), locs, blob_dir, obs),
                    },
                },
            },
        }
    }
}

pub open spec fn unsupported_version_failure(v: u32) -> (IoErrorKind, Seq<char>) {
    (IoErrorKind::InvalidData, "Unsupported snapshot format version "@ + decimal(v as nat))
}

/// The restore plan of a request, in manifest order; `identity` is the encoding from
/// which the manifest's id must have been derived.
pub open spec fn restore_plan(request: RestoreSnapshotRequest, identity: Seq<u8>, obs: Seq<PathObservation>) -> Result<Seq<(SnapshotFile, Seq<ComponentModel>, Seq<ComponentModel>, RestoreDestinationState)>, PlanErrorModel> {
    let m = request.manifest;
    if m.format_version != SNAPSHOT_FORMAT_VERSION {
        Err(PlanErrorModel::Failure(unsupported_version_failure(m.format_version)))
    } else if trimmed(m.snapshot_id@).len() == 0 {
        Err(PlanErrorModel::Failure((IoErrorKind::InvalidData, "A snapshot manifest requires an ID"@)))
    } else if blake3_hex(identity) != m.snapshot_id@ {
        Err(PlanErrorModel::Failure((IoErrorKind::InvalidData, "Snapshot manifest failed identity verification"@)))
    } else {
        planned_from(m.files@, 0, Seq::empty(), request.locations@, request.storage_directory@.push(ComponentModel::Normal("blobs"@)), obs)
    }
}

/// A planned file whose destination lies inside a location with the ID its snapshot
/// file names.
pub open spec fn planned_inside(p: (SnapshotFile, Seq<ComponentModel>, Seq<ComponentModel>, RestoreDestinationState), locs: Seq<ResolvedLocation>) -> bool {
    exists|i: int| 0 <= i < locs.len() && #[trigger] locs[i].location.id@ == p.0.location_id@ && stays_inside(p.2, locs[i].root@)
}

proof fn lemma_planned_from_inside(
    files: Seq<SnapshotFile>,
    i: int,
    planned: Seq<(SnapshotFile, Seq<ComponentModel>, Seq<ComponentModel>, RestoreDestinationState)>,
    locs: Seq<ResolvedLocation>,
    blob_dir: Seq<ComponentModel>,
    obs: Seq<PathObservation>,
)
    requires
        forall|k: int| 0 <= k < planned.len() ==> planned_inside(#[trigger] planned[k], locs),
    ensures
        planned_from(files, i, planned, locs, blob_dir, obs) matches Ok(out) ==> forall|k: int| 0 <= k < out.len() ==> planned_inside(#[trigger] out[k], locs),
    decreases files.len() - i,
{
    if 0 <= i < files.len() {
        law_restore_destination_stays_in_its_location(files[i], locs, obs);
        if let Ok(dest) = restore_destination(files[i], locs, obs) {
            if first_overlap(planned, dest, 0) is None {
                if let Ok(source) = verified_blob(files[i], blob_dir, obs) {
                    if let Ok(st) = destination_state(dest, files[i], obs) {
                        let next = planned.push((files[i], source, dest, st));
                        assert forall|k: int| 0 <= k < next.len() implies planned_inside(#[trigger] next[k], locs) by {
                            if k < planned.len() {
                                assert(next[k] == planned[k]);
                            }
                        }
                        lemma_planned_from_inside(files, i + 1, next, locs, blob_dir, obs);
                    }
                }
            }
        }
    }
}

/// A restore plan only ever writes inside the configured save locations: each planned
/// destination lies inside the location whose ID its snapshot file names.
pub proof fn law_restore_plan_stays_in_locations(request: RestoreSnapshotRequest, identity: Seq<u8>, obs: Seq<PathObservation>)
    ensures
        restore_plan(request, identity, obs) matches Ok(planned) ==> forall|k: int| 0 <= k < planned.len() ==> planned_inside(#[trigger] planned[k], request.locations@),
{
    lemma_planned_from_inside(request.manifest.files@, 0, Seq::empty(), request.locations@,
        request.storage_directory@.push(ComponentModel::Normal("blobs"@)), obs);
}

/// Whether consecutive planned files are in increasing order of destination path.
pub open spec fn sorted_by_destination(files: Seq<PlannedRestoreFile>) -> bool {
    forall|k: int| 0 <= k < files.len() - 1 ==> path_lt(#[trigger] files[k].destination_path@, files[k + 1].destination_path@)
}

pub open spec fn plan_models(files: Seq<PlannedRestoreFile>) -> Seq<(SnapshotFile, Seq<ComponentModel>, Seq<ComponentModel>, RestoreDestinationState)> {
    files.map_values(|f: PlannedRestoreFile| f.model())
}

/// No two planned destinations overlap.
pub open spec fn destinations_disjoint(planned: Seq<(SnapshotFile, Seq<ComponentModel>, Seq<ComponentModel>, RestoreDestinationState)>) -> bool {
    forall|j: int, k: int| 0 <= j < planned.len() && 0 <= k < planned.len() && j != k ==> !overlapping(#[trigger] planned[j].2, #[trigger] planned[k].2)
}

fn find_overlap(planned: &Vec<PlannedRestoreFile>, dest: &LocalPath) -> (r: Option<usize>)
    ensures
        match r {
            Some(k) => k < planned@.len() && first_overlap(plan_models(planned@), dest@, 0) == Some(k as int),
            None => first_overlap(plan_models(planned@), dest@, 0) is None,
        },
{
    let ghost m = plan_models(planned@);
    let mut k: usize = 0;
    while k < planned.len()
        invariant
            k <= planned.len(),
            m == plan_models(planned@),
            first_overlap(m, dest@, 0) == first_overlap(m, dest@, k as int),
        decreases planned.len() - k,
    {
        let existing = &planned[k].destination_path;
        assert(m[k as int].2 == existing@);
        if dest.same_as(existing) || dest.starts_with(existing) || existing.starts_with(dest) {
            return Some(k);
        }
        k = k + 1;
    }
    None
}

proof fn lemma_no_overlap_keeps_disjoint(
    planned: Seq<(SnapshotFile, Seq<ComponentModel>, Seq<ComponentModel>, RestoreDestinationState)>,
    item: (SnapshotFile, Seq<ComponentModel>, Seq<ComponentModel>, RestoreDestinationState),
)
    requires
        destinations_disjoint(planned),
        first_overlap(planned, item.2, 0) is None,
    ensures
        destinations_disjoint(planned.push(item)),
{
    assert forall|k: int| 0 <= k < planned.len() implies !overlapping(item.2, #[trigger] planned[k].2) by {
        lemma_first_overlap_none(planned, item.2, 0, k);
    }
    let p = planned.push(item);
    assert forall|j: int, k: int| 0 <= j < p.len() && 0 <= k < p.len() && j != k implies !overlapping(#[trigger] p[j].2, #[trigger] p[k].2) by {
        if j == planned.len() {
            assert(p[k] == planned[k]);
        } else if k == planned.len() {
            assert(p[j] == planned[j]);
            assert(!overlapping(item.2, planned[j].2));
        } else {
            assert(p[j] == planned[j] && p[k] == planned[k]);
        }
    }
}

proof fn lemma_first_overlap_none(
    planned: Seq<(SnapshotFile, Seq<ComponentModel>, Seq<ComponentModel>, RestoreDestinationState)>,
    dest: Seq<ComponentModel>,
    from: int,
    k: int,
)
    requires
        0 <= from <= k < planned.len(),
        first_overlap(planned, dest, from) is None,
    ensures
        !overlapping(dest, planned[k].2),
    decreases k - from,
{
    if from < k {
        lemma_first_overlap_none(planned, dest, from + 1, k);
    }
}

/// Inserts `item` into `sorted` at its place in destination order.
#[verifier::spinoff_prover]
#[verifier::rlimit(30)]
fn insert_by_destination(sorted: &mut Vec<PlannedRestoreFile>, item: PlannedRestoreFile)
    requires
        sorted_by_destination(old(sorted)@),
        forall|k: int| 0 <= k < old(sorted)@.len() ==> old(sorted)@[k].destination_path@ != item.destination_path@,
    ensures
        sorted_by_destination(final(sorted)@),
        final(sorted)@.len() == old(sorted)@.len() + 1,
        forall|x| plan_models(final(sorted)@).contains(x) <==> (plan_models(old(sorted)@).contains(x) || x == item.model()),
{
    let ghost before = sorted@;
    let mut k: usize = 0;
    while k < sorted.len() && !item.destination_path.lt(&sorted[k].destination_path)
        invariant
            sorted@ == before,
            k <= sorted.len(),
            forall|j: int| 0 <= j < k ==> !path_lt(item.destination_path@, #[trigger] before[j].destination_path@),
        decreases sorted.len() - k,
    {
        k = k + 1;
    }
    let ghost m = item.model();
    sorted.insert(k, item);
    proof {
        let after = sorted@;
        assert(after == before.insert(k as int, item));
        if k > 0 {
            lemma_path_lt_total(before[k - 1].destination_path@, item.destination_path@);
        }
        assert forall|j: int| 0 <= j < after.len() - 1 implies path_lt(#[trigger] after[j].destination_path@, after[j + 1].destination_path@) by {
            if j + 1 < k {
                assert(after[j] == before[j] && after[j + 1] == before[j + 1]);
            } else if j + 1 == k {
                assert(after[j] == before[j] && after[j + 1] == item);
            } else if j == k {
                assert(after[j] == item && after[j + 1] == before[j]);
            } else {
                assert(after[j] == before[j - 1] && after[j + 1] == before[j]);
            }
        }
        assert forall|x| plan_models(after).contains(x) <==> (plan_models(before).contains(x) || x == m) by {
            if plan_models(after).contains(x) {
                let i = choose|i: int| 0 <= i < plan_models(after).len() && plan_models(after)[i] == x;
                if i < k {
                    assert(plan_models(before)[i] == x);
                } else if i > k {
                    assert(plan_models(before)[i - 1] == x);
                }
            }
            if plan_models(before).contains(x) {
                let i = choose|i: int| 0 <= i < plan_models(before).len() && plan_models(before)[i] == x;
                if i < k {
                    assert(plan_models(after)[i] == x);
                } else {
                    assert(plan_models(after)[i + 1] == x);
                }
            }
            if x == m {
                assert(plan_models(after)[k as int] == x);
            }
        }
    }
}

/// Checks a snapshot and works out, without changing anything, which blob would be copied
/// to which live path and how each live path compares with its snapshot version.
///
/// `identity` is the encoding of the manifest's identity fields (from which its id is the
/// content hash), and `observations` the state in which the paths involved were found.
pub fn plan_snapshot_restore(request: RestoreSnapshotRequest, identity: &[u8], observations: &Vec<PathObservation>) -> (r: Result<RestorePlan, RestorePlanError>)
    ensures
        match r {
            Ok(plan) => restore_plan(request, identity@, observations@) matches Ok(planned)
                && plan.snapshot_id@ == request.manifest.snapshot_id@
                && sorted_by_destination(plan.files@)
                && plan.files@.len() == planned.len()
                && destinations_disjoint(planned)
                && (forall|x| plan_models(plan.files@).contains(x) <==> planned.contains(x)),
            Err(e) => restore_plan(request, identity@, observations@) == Err::<Seq<(SnapshotFile, Seq<ComponentModel>, Seq<ComponentModel>, RestoreDestinationState)>, PlanErrorModel>(e.model()),
        },
{
    let manifest = &request.manifest;
    if manifest.format_version != SNAPSHOT_FORMAT_VERSION {
        let mut message = "Unsupported snapshot format version ".to_owned();
        push_decimal(&mut message, manifest.format_version as u64);
        return Err(RestorePlanError::Failure(IoFailure { kind: IoErrorKind::InvalidData, message }));
    }
    let id_chars = chars_of(manifest.snapshot_id.as_str());
    if trim_chars(&id_chars).len() == 0 {
        return Err(RestorePlanError::Failure(IoFailure::new(IoErrorKind::InvalidData, "A snapshot manifest requires an ID")));
    }
    let expected = content_hash(identity);
    if !expected.eq(&manifest.snapshot_id) {
        return Err(RestorePlanError::Failure(IoFailure::new(IoErrorKind::InvalidData, "Snapshot manifest failed identity verification")));
    }
    let blob_dir = request.storage_directory.join_name("blobs".to_owned());
    let ghost files = manifest.files@;
    let ghost locs = request.locations@;
    let mut planned: Vec<PlannedRestoreFile> = Vec::new();
    assert(plan_models(planned@) =~= Seq::empty());
    let mut i: usize = 0;
    while i < manifest.files.len()
        invariant
            i <= manifest.files.len(),
            files == manifest.files@,
            locs == request.locations@,
            blob_dir@ == request.storage_directory@.push(ComponentModel::Normal("blobs"@)),
            restore_plan(request, identity@, observations@) == planned_from(files, i as int, plan_models(planned@), locs, blob_dir@, observations@),
            destinations_disjoint(plan_models(planned@)),
        decreases manifest.files.len() - i,
    {
        let file = &manifest.files[i];
        let destination_path = match destination_path_for_snapshot_file(file, &request.locations, observations) {
            Ok(p) => p,
            Err(e) => return Err(RestorePlanError::Failure(e)),
        };
        match find_overlap(&planned, &destination_path) {
            Some(k) => {
                return Err(RestorePlanError::OverlappingPaths {
                    existing: planned[k].destination_path.clone(),
                    destination: destination_path,
                });
            },
            None => {},
        }
        let source_blob_path = match verified_blob_path(file, &blob_dir, observations) {
            Ok(p) => p,
            Err(e) => return Err(RestorePlanError::Failure(e)),
        };
        let destination_state = match inspect_restore_destination(&destination_path, file, observations) {
            Ok(st) => st,
            Err(e) => return Err(RestorePlanError::Failure(e)),
        };
        let item = PlannedRestoreFile {
            snapshot_file: file.clone(),
            source_blob_path,
            destination_path,
            destination_state,
        };
        let ghost before = plan_models(planned@);
        proof { lemma_no_overlap_keeps_disjoint(before, item.model()); }
        planned.push(item);
        assert(plan_models(planned@) =~= before.push(item.model()));
        i = i + 1;
    }
    let ghost unsorted = plan_models(planned@);
    let mut sorted: Vec<PlannedRestoreFile> = Vec::new();
    while planned.len() > 0
        invariant
            destinations_disjoint(unsorted),
            sorted_by_destination(sorted@),
            sorted@.len() + planned@.len() == unsorted.len(),
            plan_models(planned@) == unsorted.take(planned@.len() as int),
            forall|x| plan_models(sorted@).contains(x) <==> unsorted.subrange(planned@.len() as int, unsorted.len() as int).contains(x),
        decreases planned.len(),
    {
        let ghost n = planned@.len();
        let ghost old_planned = planned@;
        let item = planned.pop().unwrap();
        proof {
            assert(item == old_planned[n - 1]);
            assert(plan_models(old_planned)[n - 1] == unsorted.take(n as int)[n - 1]);
            assert(item.model() == unsorted[n - 1]);
            assert(plan_models(planned@) =~= unsorted.take(n - 1));
            assert forall|k: int| 0 <= k < sorted@.len() implies sorted@[k].destination_path@ != item.destination_path@ by {
                let x = plan_models(sorted@)[k];
                assert(plan_models(sorted@).contains(x));
                let j = choose|j: int| 0 <= j < unsorted.subrange(n as int, unsorted.len() as int).len() && unsorted.subrange(n as int, unsorted.len() as int)[j] == x;
                assert(unsorted[n + j] == x);
                assert(!overlapping(unsorted[n + j].2, unsorted[n - 1].2));
            }
        }
        let ghost sorted_before = sorted@;
        insert_by_destination(&mut sorted, item);
        proof {
            let tail_before = unsorted.subrange(n as int, unsorted.len() as int);
            let tail_after = unsorted.subrange(n - 1, unsorted.len() as int);
            assert(tail_after =~= seq![unsorted[n - 1]] + tail_before);
            assert forall|x| plan_models(sorted@).contains(x) <==> tail_after.contains(x) by {
                if tail_after.contains(x) {
                    let j = choose|j: int| 0 <= j < tail_after.len() && tail_after[j] == x;
                    if j > 0 {
                        assert(tail_before[j - 1] == x);
                    }
                }
                if tail_before.contains(x) {
                    let j = choose|j: int| 0 <= j < tail_before.len() && tail_before[j] == x;
                    assert(tail_after[j + 1] == x);
                }
                if x == unsorted[n - 1] {
                    assert(tail_after[0] == x);
                }
            }
        }
    }
    assert(unsorted.subrange(0, unsorted.len() as int) =~= unsorted);
    Ok(RestorePlan { snapshot_id: manifest.snapshot_id.clone(), files: sorted })
}

/// What `fs::metadata` reports for a configured save location.
#[derive(Debug, PartialEq)]
pub enum LocationMetadata {
    File,
    Directory,
    Other,
    Failed(IoFailure),
}

/// The state of a save location whose path `fs::metadata` described as `metadata`.
pub open spec fn location_state(metadata: LocationMetadata) -> SaveLocationState {
    match metadata {
        LocationMetadata::File => SaveLocationState::File,
        LocationMetadata::Directory => SaveLocationState::Directory,
        LocationMetadata::Other => SaveLocationState::Unsupported,
        LocationMetadata::Failed(e) => if e.kind == IoErrorKind::NotFound {
            SaveLocationState::Missing
        } else {
            SaveLocationState::Unreadable(e.message)
        },
    }
}

/// The status of one configured save location, given what its path is on disk.
pub fn inspect_save_location(location: SaveLocation, metadata: LocationMetadata) -> (r: SaveLocationStatus)
    ensures
        r.location == location,
        r.state == location_state(metadata),
{
    let state = match metadata {
        LocationMetadata::File => SaveLocationState::File,
        LocationMetadata::Directory => SaveLocationState::Directory,
        LocationMetadata::Other => SaveLocationState::Unsupported,
        LocationMetadata::Failed(e) => if e.kind == IoErrorKind::NotFound {
            SaveLocationState::Missing
        } else {
            SaveLocationState::Unreadable(e.message)
        },
    };
    SaveLocationStatus { location, state }
}

/// The status of every configured save location, in order, each given with what its path
/// is on disk.
pub fn inspect_save_locations(locations: Vec<(SaveLocation, LocationMetadata)>) -> (r: Vec<SaveLocationStatus>)
    ensures
        r@.len() == locations@.len(),
        forall|i: int| #![trigger r@[i]] 0 <= i < r@.len() ==> r@[i].location == locations@[i].0 && r@[i].state == location_state(locations@[i].1),
{
    let ghost all = locations@;
    let mut rest = locations;
    let mut reversed: Vec<SaveLocationStatus> = Vec::new();
    while rest.len() > 0
        invariant
            rest@ == all.take(rest@.len() as int),
            reversed@.len() + rest@.len() == all.len(),
            forall|i: int| #![trigger reversed@[i]] 0 <= i < reversed@.len() ==> reversed@[i].location == all[all.len() - 1 - i].0
                && reversed@[i].state == location_state(all[all.len() - 1 - i].1),
        decreases rest.len(),
    {
        let ghost n = rest@.len();
        let (location, metadata) = rest.pop().unwrap();
        assert(rest@ =~= all.take(n - 1));
        reversed.push(inspect_save_location(location, metadata));
    }
    let mut r: Vec<SaveLocationStatus> = Vec::new();
    while reversed.len() > 0
        invariant
            reversed@.len() + r@.len() == all.len(),
            forall|i: int| #![trigger reversed@[i]] 0 <= i < reversed@.len() ==> reversed@[i].location == all[all.len() - 1 - i].0
                && reversed@[i].state == location_state(all[all.len() - 1 - i].1),
            forall|i: int| #![trigger r@[i]] 0 <= i < r@.len() ==> r@[i].location == all[i].0 && r@[i].state == location_state(all[i].1),
        decreases reversed.len(),
    {
        let ghost n = reversed@.len();
        let ghost old_reversed = reversed@;
        let status = reversed.pop().unwrap();
        assert(status == old_reversed[n - 1]);
        r.push(status);
        assert(forall|i: int| 0 <= i < reversed@.len() ==> reversed@[i] == old_reversed[i]);
    }
    r
}

/// A regular save file found on this device, before it enters blob storage.
#[derive(Debug, PartialEq)]
pub struct DiscoveredSaveFile {
    pub location_id: String,
    pub relative_path: String,
    pub source_path: LocalPath,
}

impl DiscoveredSaveFile {
    pub open spec fn model(&self) -> (Seq<char>, Seq<char>, Seq<ComponentModel>) {
        (self.location_id@, self.relative_path@, self.source_path@)
    }
}

/// Records one regular file of a save location, with its path relative to the location.
pub fn discovered_save_file(location_id: String, relative_path: &LocalPath, source_path: LocalPath) -> (r: Result<DiscoveredSaveFile, IoFailure>)
    ensures
        match r {
            Ok(d) => normalized_relative_path(relative_path@) == Ok::<Seq<char>, (IoErrorKind, Seq<char>)>(d.relative_path@)
                && d.location_id@ == location_id@ && d.source_path@ == source_path@,
            Err(e) => normalized_relative_path(relative_path@) == Err::<Seq<char>, (IoErrorKind, Seq<char>)>(e.model()),
        },
{
    match normalize_relative_path(relative_path) {
        Ok(text) => Ok(DiscoveredSaveFile { location_id, relative_path: text, source_path }),
        Err(e) => Err(e),
    }
}

/// One entry met while walking a save directory: a regular file (with its path relative to
/// the directory and its full path) or a failure to read the directory.
#[derive(Debug, PartialEq)]
pub enum WalkEntry {
    File { relative: LocalPath, source: LocalPath },
    Failed(IoFailure),
}

impl WalkEntry {
    pub open spec fn model(&self) -> WalkModel {
        match self {
            WalkEntry::File { relative, source } => WalkModel::File(relative@, source@),
            WalkEntry::Failed(e) => WalkModel::Failed(e.model()),
        }
    }
}

/// A walk entry as plain values.
pub enum WalkModel {
    File(Seq<ComponentModel>, Seq<ComponentModel>),
    Failed((IoErrorKind, Seq<char>)),
}

pub open spec fn walk_models(entries: Seq<WalkEntry>) -> Seq<WalkModel> {
    entries.map_values(|e: WalkEntry| e.model())
}

pub open spec fn path_views(paths: Seq<LocalPath>) -> Seq<Seq<ComponentModel>> {
    paths.map_values(|p: LocalPath| p@)
}

/// The type of a directory entry, from the entry's own metadata: a symbolic link is
/// reported as a link, never as what it points to.
#[derive(Debug, Clone, Copy, PartialEq, Eq, Structural)]
pub enum EntryKind {
    File,
    Directory,
    Symlink,
    Other,
}

/// One entry of a directory listing: its full path and its type.
#[derive(Debug, PartialEq)]
pub struct ListedEntry {
    pub path: LocalPath,
    pub kind: EntryKind,
}

pub open spec fn outside_root_failure() -> (IoErrorKind, Seq<char>) {
    (IoErrorKind::InvalidData, "prefix not found"@)
}

/// What one listed entry adds to the walk: a regular file is recorded with its path
/// relative to the root, a failure to list it is recorded as such, and nothing else is
/// recorded (a directory is walked later, a symbolic link or anything else never).
pub open spec fn listed_record(root: Seq<ComponentModel>, entry: Result<ListedEntry, IoFailure>) -> Seq<WalkModel> {
    match entry {
        Err(f) => seq![WalkModel::Failed(f.model())],
        Ok(l) => if l.kind == EntryKind::File {
            if path_starts_with(l.path@, root) {
                seq![WalkModel::File(l.path@.skip(root.len() as int), l.path@)]
            } else {
                seq![WalkModel::Failed(outside_root_failure())]
            }
        } else {
            Seq::empty()
        },
    }
}

/// The directory that one listed entry adds to those still to walk: only a directory.
pub open spec fn listed_directory(entry: Result<ListedEntry, IoFailure>) -> Seq<Seq<ComponentModel>> {
    match entry {
        Ok(l) => if l.kind == EntryKind::Directory { seq![l.path@] } else { Seq::empty() },
        Err(_) => Seq::empty(),
    }
}

pub open spec fn listed_records(root: Seq<ComponentModel>, listing: Seq<Result<ListedEntry, IoFailure>>) -> Seq<WalkModel>
    decreases listing.len(),
{
    if listing.len() == 0 {
        Seq::empty()
    } else {
        listed_records(root, listing.drop_last()) + listed_record(root, listing.last())
    }
}

pub open spec fn listed_directories(listing: Seq<Result<ListedEntry, IoFailure>>) -> Seq<Seq<ComponentModel>>
    decreases listing.len(),
{
    if listing.len() == 0 {
        Seq::empty()
    } else {
        listed_directories(listing.drop_last()) + listed_directory(listing.last())
    }
}

/// A walk through a save directory without following symbolic links: the directories still
/// to list (the last one next) and what was recorded so far.
pub struct DirectoryWalk {
    pub root: LocalPath,
    pub pending: Vec<LocalPath>,
    pub entries: Vec<WalkEntry>,
}

impl DirectoryWalk {
    /// Starts a walk at `root`, which is listed first.
    pub fn new(root: LocalPath) -> (r: DirectoryWalk)
        ensures
            r.root == root,
            path_views(r.pending@) == seq![root@],
            r.entries@.len() == 0,
    {
        let mut pending: Vec<LocalPath> = Vec::new();
        pending.push(root.clone());
        assert(path_views(pending@) =~= seq![root@]);
        DirectoryWalk { root, pending, entries: Vec::new() }
    }

    /// The next directory to list, taken off those still to walk; `None` when the walk is done.
    pub fn next_directory(&mut self) -> (r: Option<LocalPath>)
        ensures
            final(self).root == old(self).root,
            final(self).entries == old(self).entries,
            old(self).pending@.len() == 0 ==> r is None && final(self).pending@ == old(self).pending@,
            old(self).pending@.len() > 0 ==> (r matches Some(p) && p@ == old(self).pending@.last()@
                && path_views(final(self).pending@) == path_views(old(self).pending@).drop_last()),
    {
        let r = self.pending.pop();
        proof {
            if old(self).pending@.len() > 0 {
                assert(path_views(self.pending@) =~= path_views(old(self).pending@).drop_last());
            }
        }
        r
    }

    /// Takes the listing of a directory: records its regular files, and queues its
    /// directories to be listed later; symbolic links and other entries are passed over.
    pub fn take_listing(&mut self, listing: &Vec<Result<ListedEntry, IoFailure>>)
        ensures
            final(self).root == old(self).root,
            path_views(final(self).pending@) == path_views(old(self).pending@) + listed_directories(listing@),
            walk_models(final(self).entries@) == walk_models(old(self).entries@) + listed_records(old(self).root@, listing@),
    {
        let ghost pending0 = path_views(self.pending@);
        let ghost entries0 = walk_models(self.entries@);
        let mut i: usize = 0;
        assert(listing@.take(0) =~= Seq::<Result<ListedEntry, IoFailure>>::empty());
        assert(pending0 + listed_directories(listing@.take(0)) =~= pending0);
        assert(entries0 + listed_records(self.root@, listing@.take(0)) =~= entries0);
        while i < listing.len()
            invariant
                i <= listing.len(),
                self.root == old(self).root,
                path_views(self.pending@) == pending0 + listed_directories(listing@.take(i as int)),
                walk_models(self.entries@) == entries0 + listed_records(self.root@, listing@.take(i as int)),
            decreases listing.len() - i,
        {
            let ghost before_pending = path_views(self.pending@);
            let ghost before_entries = walk_models(self.entries@);
            let ghost item = listing@[i as int];
            assert(listing@.take(i + 1).drop_last() =~= listing@.take(i as int));
            assert(listing@.take(i + 1).last() == item);
            match &listing[i] {
                Err(f) => {
                    self.entries.push(WalkEntry::Failed(f.duplicate()));
                    assert(walk_models(self.entries@) =~= before_entries + listed_record(self.root@, item));
                    assert(path_views(self.pending@) =~= before_pending + listed_directory(item));
                },
                Ok(entry) => {
                    match entry.kind {
                        EntryKind::File => {
                            if entry.path.starts_with(&self.root) {
                                let mut components: Vec<PathComponent> = Vec::new();
                                let mut k: usize = self.root.components.len();
                                let ghost n = self.root.components@.len() as int;
                                while k < entry.path.components.len()
                                    invariant
                                        0 <= n <= k <= entry.path.components.len(),
                                        entry.path@.len() == entry.path.components@.len(),
                                        components@.map_values(|c: PathComponent| c.model())
                                            == entry.path@.subrange(n, k as int),
                                    decreases entry.path.components.len() - k,
                                {
                                    let ghost b = components@.map_values(|c: PathComponent| c.model());
                                    let ghost whole = entry.path@;
                                    assert(whole.subrange(n, k + 1) =~= whole.subrange(n, k as int).push(whole[k as int]));
                                    assert(whole[k as int] == entry.path.components@[k as int].model());
                                    components.push(entry.path.components[k].clone());
                                    assert(components@.map_values(|c: PathComponent| c.model()) =~= b.push(whole[k as int]));
                                    k = k + 1;
                                }
                                let relative = LocalPath { components };
                                assert(relative@ =~= entry.path@.skip(self.root@.len() as int));
                                self.entries.push(WalkEntry::File { relative, source: entry.path.clone() });
                            } else {
                                self.entries.push(WalkEntry::Failed(IoFailure::new(IoErrorKind::InvalidData, "prefix not found")));
                            }
                            assert(walk_models(self.entries@) =~= before_entries + listed_record(self.root@, item));
                            assert(path_views(self.pending@) =~= before_pending + listed_directory(item));
                        },
                        EntryKind::Directory => {
                            self.pending.push(entry.path.clone());
                            assert(walk_models(self.entries@) =~= before_entries + listed_record(self.root@, item));
                            assert(path_views(self.pending@) =~= before_pending + listed_directory(item));
                        },
                        _ => {
                            assert(walk_models(self.entries@) =~= before_entries + listed_record(self.root@, item));
                            assert(path_views(self.pending@) =~= before_pending + listed_directory(item));
                        },
                    }
                },
            }
            i = i + 1;
        }
        assert(listing@.take(listing.len() as int) =~= listing@);
    }
}

/// Whether a listed entry is anything but a symbolic link.
pub open spec fn not_a_link() -> spec_fn(Result<ListedEntry, IoFailure>) -> bool {
    |e: Result<ListedEntry, IoFailure>| !(e matches Ok(l) && l.kind == EntryKind::Symlink)
}

proof fn lemma_filter_push_entry(s: Seq<Result<ListedEntry, IoFailure>>, f: spec_fn(Result<ListedEntry, IoFailure>) -> bool, x: Result<ListedEntry, IoFailure>)
    ensures
        s.push(x).filter(f) == if f(x) { s.filter(f).push(x) } else { s.filter(f) },
{
    reveal(Seq::filter);
    assert(s.push(x).drop_last() =~= s);
    assert(s.push(x).last() == x);
}

/// Symbolic links inside a save directory are never followed: a listing walks exactly the
/// directories and records exactly the files that it would without its symbolic links.
pub proof fn law_symbolic_links_are_not_followed(root: Seq<ComponentModel>, listing: Seq<Result<ListedEntry, IoFailure>>)
    ensures
        listed_directories(listing) == listed_directories(listing.filter(not_a_link())),
        listed_records(root, listing) == listed_records(root, listing.filter(not_a_link())),
    decreases listing.len(),
{
    if listing.len() > 0 {
        let init = listing.drop_last();
        let x = listing.last();
        law_symbolic_links_are_not_followed(root, init);
        assert(init.push(x) =~= listing);
        lemma_filter_push_entry(init, not_a_link(), x);
        let fi = init.filter(not_a_link());
        if not_a_link()(x) {
            assert(fi.push(x).drop_last() =~= fi);
        } else {
            assert(listed_directory(x) =~= Seq::<Seq<ComponentModel>>::empty());
            assert(listed_record(root, x) =~= Seq::<WalkModel>::empty());
            assert(listed_directories(listing) =~= listed_directories(init));
            assert(listed_records(root, listing) =~= listed_records(root, init));
        }
    }
}

/// What was found at a configured save location: a failure to read its metadata, a
/// symbolic link, a regular file, a directory (with the regular files below it, found
/// without following symbolic links) or something else.
#[derive(Debug, PartialEq)]
pub enum LocationScan {
    Failed(IoFailure),
    Symlink,
    File,
    Directory(Vec<WalkEntry>),
    Other,
}

/// The files of a walk from entry `i` on, after those already `found`, in walk order; or the
/// first failure met.
pub open spec fn walk_files(id: Seq<char>, walk: Seq<WalkEntry>, i: int, found: Seq<(Seq<char>, Seq<char>, Seq<ComponentModel>)>) -> Result<Seq<(Seq<char>, Seq<char>, Seq<ComponentModel>)>, (IoErrorKind, Seq<char>)>
    decreases walk.len() - i,
{
    if i < 0 || i >= walk.len() {
        Ok(found)
    } else {
        match walk[i] {
            WalkEntry::Failed(e) => Err(e.model()),
            WalkEntry::File { relative, source } => match normalized_relative_path(relative@) {
                Err(e) => Err(e),
                Ok(text) => walk_files(id, walk, i + 1, found.push((id, text, source@))),
            },
        }
    }
}

/// Relative paths in non-decreasing order.
pub open spec fn sorted_by_relative_path(s: Seq<(Seq<char>, Seq<char>, Seq<ComponentModel>)>) -> bool {
    forall|k: int| 0 <= k < s.len() - 1 ==> !chars_lt(#[trigger] s[k + 1].1, s[k].1)
}

/// The files that a save location holds, before they are ordered: one for a regular file
/// (with the empty relative path), every regular file below it for a directory.
pub open spec fn location_files(location: SaveLocation, root: Seq<ComponentModel>, scan: LocationScan) -> Result<Seq<(Seq<char>, Seq<char>, Seq<ComponentModel>)>, (IoErrorKind, Seq<char>)> {
    if trimmed(location.id@).len() == 0 {
        Err((IoErrorKind::InvalidInput, "Save locations require a stable ID"@))
    } else {
        match scan {
            LocationScan::Failed(e) => Err(e.model()),
            LocationScan::Symlink => Err((IoErrorKind::InvalidInput, "Save locations cannot be symbolic links"@)),
            LocationScan::File => Ok(seq![(location.id@, Seq::<char>::empty(), root)]),
            LocationScan::Directory(walk) => walk_files(location.id@, walk@, 0, Seq::empty()),
            LocationScan::Other => Err((IoErrorKind::InvalidInput, "Save location is not a regular file or directory"@)),
        }
    }
}

pub open spec fn discovered_models(v: Seq<DiscoveredSaveFile>) -> Seq<(Seq<char>, Seq<char>, Seq<ComponentModel>)> {
    v.map_values(|d: DiscoveredSaveFile| d.model())
}

/// Whether the file at `i` goes before the one at `j` when files are ordered by relative
/// path, files with the same relative path keeping the order in which they were found.
pub open spec fn path_goes_before(files: Seq<(Seq<char>, Seq<char>, Seq<ComponentModel>)>, i: int, j: int) -> bool {
    chars_lt(files[i].1, files[j].1) || (!chars_lt(files[j].1, files[i].1) && i < j)
}

/// `sorted` is `files` ordered by relative path, stably.
pub open spec fn in_relative_path_order(files: Seq<(Seq<char>, Seq<char>, Seq<ComponentModel>)>, sorted: Seq<(Seq<char>, Seq<char>, Seq<ComponentModel>)>) -> bool {
    exists|order: Seq<usize>| #[trigger] order.to_multiset() == positions(files.len() as int).to_multiset()
        && (forall|k: int| 0 <= k < order.len() - 1 ==> path_goes_before(files, #[trigger] order[k] as int, order[k + 1] as int))
        && sorted == order.map_values(|q: usize| files[q as int])
}

/// The positions `lo..hi`.
spec fn positions_between(lo: int, hi: int) -> Seq<usize> {
    Seq::new((hi - lo) as nat, |k: int| (lo + k) as usize)
}

/// Orders discovered files by relative path; the sort is stable.
fn sort_by_relative_path(found: Vec<DiscoveredSaveFile>) -> (r: Vec<DiscoveredSaveFile>)
    ensures
        in_relative_path_order(discovered_models(found@), discovered_models(r@)),
        sorted_by_relative_path(discovered_models(r@)),
        discovered_models(r@).to_multiset() == discovered_models(found@).to_multiset(),
{
    let ghost all = discovered_models(found@);
    let ghost len = all.len() as int;
    let ghost mut order: Seq<usize> = Seq::empty();
    let mut rest = found;
    let mut sorted: Vec<DiscoveredSaveFile> = Vec::new();
    assert(discovered_models(sorted@) =~= order.map_values(|q: usize| all[q as int]));
    assert(positions_between(len, len) =~= order);
    assert(discovered_models(sorted@) =~= all.skip(len));
    assert(all.take(len) =~= all);
    while rest.len() > 0
        invariant
            rest@.len() <= len,
            len == all.len(),
            discovered_models(rest@) == all.take(rest@.len() as int),
            discovered_models(sorted@) == order.map_values(|q: usize| all[q as int]),
            order.to_multiset() == positions_between(rest@.len() as int, len).to_multiset(),
            forall|m: int| 0 <= m < order.len() ==> rest@.len() <= #[trigger] order[m] < len,
            forall|m: int| 0 <= m < order.len() - 1 ==> path_goes_before(all, #[trigger] order[m] as int, order[m + 1] as int),
            discovered_models(sorted@).to_multiset() == all.skip(rest@.len() as int).to_multiset(),
        decreases rest.len(),
    {
        let ghost n = rest@.len() as int;
        let ghost old_rest = rest@;
        let item = rest.pop().unwrap();
        proof {
            assert(item == old_rest[n - 1]);
            assert(discovered_models(old_rest)[n - 1] == all.take(n)[n - 1]);
            assert(rest@ =~= old_rest.drop_last());
            assert(discovered_models(rest@) =~= discovered_models(old_rest).drop_last());
            assert(discovered_models(rest@) =~= all.take(n - 1));
        }
        let ghost before = discovered_models(sorted@);
        let ghost before_order = order;
        let mut k: usize = 0;
        let mut placed = false;
        while k < sorted.len() && !placed
            invariant
                discovered_models(sorted@) == before,
                k <= sorted.len(),
                placed ==> k < sorted.len() && !chars_lt(before[k as int].1, item.relative_path@),
                forall|j: int| 0 <= j < k ==> chars_lt(#[trigger] before[j].1, item.relative_path@),
            decreases sorted.len() - k, if placed { 0int } else { 1int },
        {
            assert(before[k as int] == sorted@[k as int].model());
            if !text_lt(&sorted[k].relative_path, &item.relative_path) {
                placed = true;
            } else {
                k = k + 1;
            }
        }
        let ghost m = item.model();
        sorted.insert(k, item);
        proof {
            let idx = (n - 1) as usize;
            assert(m == all[n - 1]);
            order = before_order.insert(k as int, idx);
            assert(discovered_models(sorted@) =~= before.insert(k as int, m));
            assert(discovered_models(sorted@) =~= order.map_values(|q: usize| all[q as int]));
            vstd::seq_lib::to_multiset_insert(before_order, k as int, idx);
            let pb = positions_between(n, len);
            assert(positions_between(n - 1, len) =~= pb.insert(0, idx));
            vstd::seq_lib::to_multiset_insert(pb, 0, idx);
            vstd::seq_lib::to_multiset_insert(before, k as int, m);
            assert(all.skip(n - 1) =~= all.skip(n).insert(0, m));
            vstd::seq_lib::to_multiset_insert(all.skip(n), 0, m);
            assert forall|j: int| 0 <= j < order.len() - 1 implies path_goes_before(all, #[trigger] order[j] as int, order[j + 1] as int) by {
                if j + 1 < k {
                    assert(order[j] == before_order[j] && order[j + 1] == before_order[j + 1]);
                } else if j + 1 == k {
                    assert(order[j] == before_order[j] && order[j + 1] == idx);
                    assert(before[j] == all[before_order[j] as int]);
                } else if j == k {
                    assert(order[j] == idx && order[j + 1] == before_order[j]);
                    assert(before[j] == all[before_order[j] as int]);
                } else {
                    assert(order[j] == before_order[j - 1] && order[j + 1] == before_order[j]);
                    let q = j - 1;
                    assert(path_goes_before(all, before_order[q] as int, before_order[q + 1] as int));
                }
            }
            assert forall|q: int| 0 <= q < order.len() implies n - 1 <= #[trigger] order[q] < len by {
                if q < k { assert(order[q] == before_order[q]); } else if q > k { assert(order[q] == before_order[q - 1]); }
            }
        }
    }
    proof {
        assert(positions_between(0, len) =~= positions(len));
        assert(all.skip(0) =~= all);
        let sm = discovered_models(sorted@);
        assert forall|k: int| 0 <= k < sm.len() - 1 implies !chars_lt(#[trigger] sm[k + 1].1, sm[k].1) by {
            assert(path_goes_before(all, order[k] as int, order[k + 1] as int));
            if chars_lt(sm[k].1, sm[k + 1].1) {
                lemma_chars_lt_asymmetric(sm[k].1, sm[k + 1].1);
            }
        }
        assert(in_relative_path_order(all, sm));
    }
    sorted
}

proof fn lemma_chars_lt_asymmetric(a: Seq<char>, b: Seq<char>)
    requires
        chars_lt(a, b),
    ensures
        !chars_lt(b, a),
    decreases a.len(),
{
    if a.len() > 0 && b.len() > 0 && a[0] == b[0] {
        lemma_chars_lt_asymmetric(a.drop_first(), b.drop_first());
    }
}

/// Finds the regular files of one configured save file or directory, ordered by their
/// relative path.
pub fn discover_location_files(location: &SaveLocation, root: &LocalPath, scan: LocationScan) -> (r: Result<Vec<DiscoveredSaveFile>, IoFailure>)
    ensures
        match r {
            Ok(files) => location_files(*location, root@, scan) matches Ok(found)
                && in_relative_path_order(found, discovered_models(files@))
                && discovered_models(files@).to_multiset() == found.to_multiset()
                && sorted_by_relative_path(discovered_models(files@)),
            Err(e) => location_files(*location, root@, scan) == Err::<Seq<(Seq<char>, Seq<char>, Seq<ComponentModel>)>, (IoErrorKind, Seq<char>)>(e.model()),
        },
{
    let id_chars = chars_of(location.id.as_str());
    if trim_chars(&id_chars).len() == 0 {
        return Err(IoFailure::new(IoErrorKind::InvalidInput, "Save locations require a stable ID"));
    }
    match scan {
        LocationScan::Failed(e) => Err(e),
        LocationScan::Symlink => Err(IoFailure::new(IoErrorKind::InvalidInput, "Save locations cannot be symbolic links")),
        LocationScan::Other => Err(IoFailure::new(IoErrorKind::InvalidInput, "Save location is not a regular file or directory")),
        LocationScan::File => {
            let mut files: Vec<DiscoveredSaveFile> = Vec::new();
            files.push(DiscoveredSaveFile { location_id: location.id.clone(), relative_path: String::new(), source_path: root.clone() });
            assert(discovered_models(files@) =~= seq![(location.id@, Seq::<char>::empty(), root@)]);
            proof {
                let found = discovered_models(files@);
                let order = seq![0usize];
                assert(positions(1) =~= order);
                assert(order.to_multiset() == positions(found.len() as int).to_multiset());
                assert(found =~= order.map_values(|q: usize| found[q as int]));
                assert(in_relative_path_order(found, found));
            }
            Ok(files)
        },
        LocationScan::Directory(walk) => {
            let ghost w = walk@;
            let mut found: Vec<DiscoveredSaveFile> = Vec::new();
            let mut i: usize = 0;
            assert(discovered_models(found@) =~= Seq::empty());
            while i < walk.len()
                invariant
                    i <= walk.len(),
                    w == walk@,
                    location_files(*location, root@, scan) == walk_files(location.id@, w, i as int, discovered_models(found@)),
                decreases walk.len() - i,
            {
                match &walk[i] {
                    WalkEntry::Failed(e) => return Err(e.duplicate()),
                    WalkEntry::File { relative, source } => {
                        let d = match discovered_save_file(location.id.clone(), relative, source.clone()) {
                            Ok(d) => d,
                            Err(e) => return Err(e),
                        };
                        let ghost before = discovered_models(found@);
                        found.push(d);
                        assert(discovered_models(found@) =~= before.push((location.id@, d.relative_path@, source@)));
                    },
                }
                i = i + 1;
            }
            Ok(sort_by_relative_path(found))
        },
    }
}

} // verus!
