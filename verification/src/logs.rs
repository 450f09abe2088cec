use vstd::prelude::*;

use crate::error::{IoErrorKind, IoFailure};
use crate::paths::{ComponentModel, LocalPath};
use crate::text::{char_is_ascii_alphanumeric, char_is_white_space, chars_of, decimal, is_ascii_alphanumeric, is_white_space, push_decimal};

verus! {

/// How one character of a title appears in a file name: ASCII letters, digits, `-` and
/// `_` stay, white space becomes `-`, anything else `_`.
pub open spec fn safe_char(c: char) -> char {
    if is_ascii_alphanumeric(c) || c == '-' || c == '_' {
        c
    } else if is_white_space(c) {
        '-'
    } else {
        '_'
    }
}

/// A title turned into a file name: its first 48 characters made safe, or `untitled`
/// for an empty title.
pub open spec fn safe_filename_of(title: Seq<char>) -> Seq<char> {
    let kept = if title.len() <= 48 { title } else { title.take(48) };
    if kept.len() == 0 { "untitled"@ } else { kept.map_values(|c: char| safe_char(c)) }
}

/// Converts a visual novel title into text that is safe in a file name.
pub fn safe_filename(title: String) -> (r: String)
    ensures
        r@ == safe_filename_of(title@),
{
    let cs = chars_of(title.as_str());
    let n: usize = if cs.len() <= 48 { cs.len() } else { 48 };
    let ghost kept = if title@.len() <= 48 { title@ } else { title@.take(48) };
    let mut safe = String::new();
    let mut i: usize = 0;
    while i < n
        invariant
            cs@ == title@,
            n == kept.len(),
            kept == if title@.len() <= 48 { title@ } else { title@.take(48) },
            i <= n,
            safe@ == kept.take(i as int).map_values(|c: char| safe_char(c)),
        decreases n - i,
    {
        let c = cs[i];
        let d = if char_is_ascii_alphanumeric(c) || c == '-' || c == '_' {
            c
        } else if char_is_white_space(c) {
            '-'
        } else {
            '_'
        };
        safe.push(d);
        assert(kept.take(i + 1).map_values(|c: char| safe_char(c)) =~= kept.take(i as int).map_values(|c: char| safe_char(c)).push(safe_char(kept[i as int])));
        i = i + 1;
    }
    assert(kept.take(n as int) =~= kept);
    if n == 0 {
        "untitled".to_owned()
    } else {
        safe
    }
}

/// A file name made from a title is never empty, has at most 48 characters, and holds
/// only ASCII letters, digits, `-` and `_`.
pub proof fn law_safe_filenames_are_safe(title: Seq<char>)
    ensures
        0 < safe_filename_of(title).len() <= 48,
        forall|i: int| 0 <= i < safe_filename_of(title).len() ==> {
            let c = #[trigger] safe_filename_of(title)[i];
            is_ascii_alphanumeric(c) || c == '-' || c == '_'
        },
{
    reveal_strlit("untitled");
    let r = safe_filename_of(title);
    assert forall|i: int| 0 <= i < r.len() implies {
        let c = #[trigger] r[i];
        is_ascii_alphanumeric(c) || c == '-' || c == '_'
    } by {
        let kept = if title.len() <= 48 { title } else { title.take(48) };
        if kept.len() > 0 {
            assert(r[i] == safe_char(kept[i]));
        }
    }
}

pub open spec fn app_directory(data_dir: Seq<ComponentModel>) -> Seq<ComponentModel> {
    data_dir.push(ComponentModel::Normal("kakera"@))
}

/// Where launch logs are kept, below the platform's data directory (`None` when the
/// platform has none). The directory is created by whoever writes a log.
pub fn launch_logs_dir(data_dir: Option<LocalPath>) -> (r: Result<LocalPath, IoFailure>)
    ensures
        match data_dir {
            Some(d) => r is Ok && r->Ok_0@ == app_directory(d@).push(ComponentModel::Normal("logs"@)),
            None => r is Err && r->Err_0.model() == (IoErrorKind::NotFound, "Could not find an app data directory"@),
        },
{
    match data_dir {
        Some(d) => Ok(d.join_name("kakera".to_owned()).join_name("logs".to_owned())),
        None => Err(IoFailure::new(IoErrorKind::NotFound, "Could not find an app data directory")),
    }
}

/// The path kept for a copy of the most recent launch log.
pub fn latest_launch_log_path(logs_dir: &LocalPath) -> (r: LocalPath)
    ensures
        r@ == logs_dir@.push(ComponentModel::Normal("latest.log"@)),
{
    logs_dir.join_name("latest.log".to_owned())
}

/// The file name of the log of one launch: the launch time, the visual novel's ID and
/// its title made safe.
pub open spec fn launch_log_name(timestamp: Seq<char>, vn_id: u64, title: Seq<char>) -> Seq<char> {
    timestamp + "-vn-"@ + decimal(vn_id as nat) + "-"@ + safe_filename_of(title) + ".log"@
}

/// A new log path for one launch of a visual novel, `timestamp` being the launch time
/// written as `YYYYmmdd-HHMMSS`.
pub fn new_launch_log_path(logs_dir: &LocalPath, timestamp: &str, vn_id: u64, vn_title: String) -> (r: LocalPath)
    ensures
        r@ == logs_dir@.push(ComponentModel::Normal(launch_log_name(timestamp@, vn_id, vn_title@))),
{
    let mut name = timestamp.to_owned();
    name.append("-vn-");
    push_decimal(&mut name, vn_id);
    name.append("-");
    let safe = safe_filename(vn_title);
    name.append(safe.as_str());
    name.append(".log");
    logs_dir.join_name(name)
}

} // verus!
