use vstd::prelude::*;

use crate::error::{IoErrorKind, IoFailure};
use crate::logs::app_directory;
use crate::models::{PlaySession, VisualNovel};
use crate::paths::{ComponentModel, LocalPath};

verus! {

/// Where the library is kept as JSON, below the platform's data directory (`None` when
/// the platform has none).
pub fn library_file_path(data_dir: Option<LocalPath>) -> (r: Result<LocalPath, IoFailure>)
    ensures
        match data_dir {
            Some(d) => r is Ok && r->Ok_0@ == app_directory(d@).push(ComponentModel::Normal("library.json"@)),
            None => r is Err && r->Err_0.model() == (IoErrorKind::NotFound, "could not find an app data directory."@),
        },
{
    match data_dir {
        Some(d) => Ok(d.join_name("kakera".to_owned()).join_name("library.json".to_owned())),
        None => Err(IoFailure::new(IoErrorKind::NotFound, "could not find an app data directory.")),
    }
}

/// `after` is `before` with nothing but its play sessions changed.
pub open spec fn same_but_sessions(after: VisualNovel, before: VisualNovel) -> bool {
    after == (VisualNovel { play_sessions: after.play_sessions, ..before })
}

/// Records one play session on every visual novel of the library whose ID is
/// `visual_novel_id`, leaving everything else as it was.
pub fn add_play_session_to_library(library: Vec<VisualNovel>, visual_novel_id: u64, play_session: PlaySession) -> (r: Vec<VisualNovel>)
    ensures
        r@.len() == library@.len(),
        forall|i: int| #![trigger r@[i]] 0 <= i < r@.len() ==> {
            &&& r@[i].play_sessions@ == if library@[i].id == visual_novel_id {
                library@[i].play_sessions@.push(play_session)
            } else {
                library@[i].play_sessions@
            }
            &&& same_but_sessions(r@[i], library@[i])
        },
{
    let ghost all = library@;
    let mut rest = library;
    let mut reversed: Vec<VisualNovel> = Vec::new();
    while rest.len() > 0
        invariant
            rest@ == all.take(rest@.len() as int),
            reversed@.len() + rest@.len() == all.len(),
            forall|i: int| #![trigger reversed@[i]] 0 <= i < reversed@.len() ==> {
                let o = all[all.len() - 1 - i];
                &&& reversed@[i].play_sessions@ == if o.id == visual_novel_id { o.play_sessions@.push(play_session) } else { o.play_sessions@ }
                &&& same_but_sessions(reversed@[i], o)
            },
        decreases rest.len(),
    {
        let ghost n = rest@.len();
        let mut vn = rest.pop().unwrap();
        assert(rest@ =~= all.take(n - 1));
        assert(vn == all[n - 1]);
        if vn.id == visual_novel_id {
            vn.play_sessions.push(play_session.clone());
        }
        reversed.push(vn);
    }
    let mut r: Vec<VisualNovel> = Vec::new();
    while reversed.len() > 0
        invariant
            reversed@.len() + r@.len() == all.len(),
            forall|i: int| #![trigger reversed@[i]] 0 <= i < reversed@.len() ==> {
                let o = all[all.len() - 1 - i];
                &&& reversed@[i].play_sessions@ == if o.id == visual_novel_id { o.play_sessions@.push(play_session) } else { o.play_sessions@ }
                &&& same_but_sessions(reversed@[i], o)
            },
            forall|i: int| #![trigger r@[i]] 0 <= i < r@.len() ==> {
                &&& r@[i].play_sessions@ == if all[i].id == visual_novel_id { all[i].play_sessions@.push(play_session) } else { all[i].play_sessions@ }
                &&& same_but_sessions(r@[i], all[i])
            },
        decreases reversed.len(),
    {
        let ghost n = reversed@.len();
        let ghost old_reversed = reversed@;
        let vn = reversed.pop().unwrap();
        assert(vn == old_reversed[n - 1]);
        r.push(vn);
        assert(forall|i: int| 0 <= i < reversed@.len() ==> reversed@[i] == old_reversed[i]);
    }
    r
}

} // verus!
