use vstd::prelude::*;

use crate::models::{LibraryFilterMode, LibrarySortMode, PlaySession, VisualNovel};
use crate::paths::{char_views, chars_lt, lemma_chars_lt_total, split, split_chars, text_lt};
use crate::text::{chars_of, find_chars, lemma_find_from_bounds, occurs_at, same_text, string_of, trim_chars, trimmed};

verus! {

/// The most recent start time among the sessions (the greatest text), or the empty
/// text when there is none.
pub open spec fn latest_start(sessions: Seq<PlaySession>) -> Seq<char>
    decreases sessions.len(),
{
    if sessions.len() == 0 {
        Seq::empty()
    } else {
        let rest = latest_start(sessions.drop_last());
        if chars_lt(rest, sessions.last().started_at@) { sessions.last().started_at@ } else { rest }
    }
}

/// When a visual novel was last played: its latest session start.
pub fn latest_played_at(vn: &VisualNovel) -> (r: String)
    ensures
        r@ == latest_start(vn.play_sessions@),
{
    let ss = &vn.play_sessions;
    let mut latest = String::new();
    let mut i: usize = 0;
    while i < ss.len()
        invariant
            i <= ss.len(),
            latest@ == latest_start(ss@.take(i as int)),
        decreases ss.len() - i,
    {
        assert(ss@.take(i + 1).drop_last() =~= ss@.take(i as int));
        if text_lt(&latest, &ss[i].started_at) {
            latest = ss[i].started_at.clone();
        }
        i = i + 1;
    }
    assert(ss@.take(ss.len() as int) =~= ss@);
    latest
}

proof fn lemma_lt_asymmetric(a: Seq<char>, b: Seq<char>)
    requires
        chars_lt(a, b),
    ensures
        !chars_lt(b, a),
        a != b,
        b.len() > 0,
    decreases a.len(),
{
    if a.len() > 0 && b.len() > 0 && a[0] == b[0] {
        lemma_lt_asymmetric(a.drop_first(), b.drop_first());
    }
}

proof fn lemma_lt_transitive(a: Seq<char>, b: Seq<char>, c: Seq<char>)
    requires
        chars_lt(a, b),
        chars_lt(b, c),
    ensures
        chars_lt(a, c),
    decreases a.len(),
{
    if a.len() > 0 && b.len() > 0 && c.len() > 0 && a[0] == b[0] && b[0] == c[0] {
        lemma_lt_transitive(a.drop_first(), b.drop_first(), c.drop_first());
    }
}

/// The start of the `k`-th session of a visual novel.
pub open spec fn session_start(vn: VisualNovel, k: int) -> Seq<char> {
    vn.play_sessions@[k].started_at@
}

/// When a visual novel was last played (`latest_played_at`) is no earlier than any of its
/// sessions' starts, and is the start of one of them when there is any (the empty text
/// when there is none).
pub proof fn law_last_played_is_the_greatest_start(sessions: Seq<PlaySession>)
    ensures
        forall|k: int| 0 <= k < sessions.len() ==> !chars_lt(latest_start(sessions), #[trigger] sessions[k].started_at@),
        sessions.len() == 0 ==> latest_start(sessions) == Seq::<char>::empty(),
        sessions.len() > 0 ==> exists|k: int| 0 <= k < sessions.len() && latest_start(sessions) == #[trigger] sessions[k].started_at@,
    decreases sessions.len(),
{
    if sessions.len() > 0 {
        let init = sessions.drop_last();
        let n = sessions.len() - 1;
        law_last_played_is_the_greatest_start(init);
        let rest = latest_start(init);
        let last = sessions[n];
        assert(sessions.last() == last);
        assert forall|k: int| 0 <= k < sessions.len() implies !chars_lt(latest_start(sessions), #[trigger] sessions[k].started_at@) by {
            if k < n {
                assert(sessions[k] == init[k]);
                assert(!chars_lt(rest, init[k].started_at@));
                if chars_lt(rest, last.started_at@) && chars_lt(last.started_at@, sessions[k].started_at@) {
                    lemma_lt_transitive(rest, last.started_at@, sessions[k].started_at@);
                }
            } else if chars_lt(rest, last.started_at@) {
                if chars_lt(last.started_at@, last.started_at@) {
                    lemma_lt_asymmetric(last.started_at@, last.started_at@);
                }
            }
        }
        if chars_lt(rest, last.started_at@) {
            assert(latest_start(sessions) == sessions[n].started_at@);
        } else if init.len() > 0 {
            let k = choose|k: int| 0 <= k < init.len() && rest == #[trigger] init[k].started_at@;
            assert(sessions[k] == init[k]);
            assert(latest_start(sessions) == sessions[k].started_at@);
        } else {
            assert(last.started_at@.len() == 0);
            assert(last.started_at@ =~= Seq::<char>::empty());
            assert(latest_start(sessions) == sessions[n].started_at@);
        }
    }
}

/// Whether `a` was played after `b`: one of `a`'s sessions (with a start time) began after
/// every session of `b`.
pub open spec fn played_after(a: VisualNovel, b: VisualNovel) -> bool {
    exists|k: int| 0 <= k < a.play_sessions@.len() && (#[trigger] session_start(a, k)).len() > 0
        && forall|l: int| 0 <= l < b.play_sessions@.len() ==> chars_lt(#[trigger] session_start(b, l), session_start(a, k))
}

/// Sorting by when a visual novel was last played puts one before another exactly when it
/// was played after it, judged by all sessions of both, whatever their order.
pub proof fn law_last_played_goes_by_the_latest_session(vns: Seq<VisualNovel>, i: int, j: int)
    requires
        0 <= i < vns.len(),
        0 <= j < vns.len(),
    ensures
        ranks_before(LibrarySortMode::LastPlayed, vns, i, j) <==> played_after(vns[i], vns[j]),
{
    let a = vns[i];
    let b = vns[j];
    let sa = a.play_sessions@;
    let sb = b.play_sessions@;
    let mi = latest_start(sa);
    let mj = latest_start(sb);
    law_last_played_is_the_greatest_start(sa);
    law_last_played_is_the_greatest_start(sb);
    if chars_lt(mj, mi) {
        lemma_lt_asymmetric(mj, mi);
        assert(sa.len() > 0);
        let k = choose|k: int| 0 <= k < sa.len() && mi == #[trigger] sa[k].started_at@;
        assert(session_start(a, k) == mi);
        assert forall|l: int| 0 <= l < sb.len() implies chars_lt(#[trigger] session_start(b, l), session_start(a, k)) by {
            let t = sb[l].started_at@;
            assert(!chars_lt(mj, t));
            if t != mj {
                lemma_chars_lt_total(t, mj);
                lemma_lt_transitive(t, mj, mi);
            }
        }
        assert(played_after(a, b));
    }
    if played_after(a, b) {
        let k = choose|k: int| 0 <= k < sa.len() && (#[trigger] session_start(a, k)).len() > 0
            && forall|l: int| 0 <= l < sb.len() ==> chars_lt(#[trigger] session_start(b, l), session_start(a, k));
        let t = session_start(a, k);
        assert(!chars_lt(mi, sa[k].started_at@));
        if t != mi {
            lemma_chars_lt_total(t, mi);
        }
        if sb.len() == 0 {
            assert(mj =~= Seq::<char>::empty());
            if mi.len() == 0 {
                assert(chars_lt(mi, t));
            }
        } else {
            let l = choose|l: int| 0 <= l < sb.len() && mj == #[trigger] sb[l].started_at@;
            assert(session_start(b, l) == mj);
            assert(chars_lt(mj, t));
            if t != mi {
                lemma_lt_transitive(mj, t, mi);
            }
        }
        assert(chars_lt(mj, mi));
    }
}

/// The seconds of all sessions together.
pub open spec fn total_seconds(sessions: Seq<PlaySession>) -> int
    decreases sessions.len(),
{
    if sessions.len() == 0 { 0 } else { total_seconds(sessions.drop_last()) + sessions.last().duration_seconds }
}

proof fn lemma_total_prefix(sessions: Seq<PlaySession>, n: int)
    requires
        0 <= n <= sessions.len(),
    ensures
        0 <= total_seconds(sessions.take(n)) <= total_seconds(sessions),
    decreases sessions.len() - n,
{
    if n < sessions.len() {
        lemma_total_prefix(sessions, n + 1);
        assert(sessions.take(n + 1).drop_last() =~= sessions.take(n));
    } else {
        assert(sessions.take(n) =~= sessions);
    }
    lemma_total_nonnegative(sessions.take(n));
}

proof fn lemma_total_nonnegative(sessions: Seq<PlaySession>)
    ensures
        total_seconds(sessions) >= 0,
    decreases sessions.len(),
{
    if sessions.len() > 0 {
        lemma_total_nonnegative(sessions.drop_last());
    }
}

/// The total reading time of a visual novel, in seconds.
pub fn total_playtime_seconds(vn: &VisualNovel) -> (r: u64)
    requires
        total_seconds(vn.play_sessions@) <= u64::MAX,
    ensures
        r == total_seconds(vn.play_sessions@),
{
    let ss = &vn.play_sessions;
    let mut total: u64 = 0;
    let mut i: usize = 0;
    while i < ss.len()
        invariant
            i <= ss.len(),
            total_seconds(ss@) <= u64::MAX,
            total == total_seconds(ss@.take(i as int)),
        decreases ss.len() - i,
    {
        assert(ss@.take(i + 1).drop_last() =~= ss@.take(i as int));
        proof { lemma_total_prefix(ss@, i + 1); }
        total = total + ss[i].duration_seconds;
        i = i + 1;
    }
    assert(ss@.take(ss.len() as int) =~= ss@);
    total
}

/// The tags written in comma separated parts: each part trimmed, empty ones left out.
pub open spec fn tags_from(parts: Seq<Seq<char>>) -> Seq<Seq<char>>
    decreases parts.len(),
{
    if parts.len() == 0 {
        Seq::empty()
    } else {
        let init = tags_from(parts.drop_last());
        let t = trimmed(parts.last());
        if t.len() == 0 { init } else { init.push(t) }
    }
}

pub open spec fn string_views(v: Seq<String>) -> Seq<Seq<char>> {
    v.map_values(|s: String| s@)
}

/// Turns comma separated tags into a list.
pub fn parse_tags(text: String) -> (r: Vec<String>)
    ensures
        string_views(r@) == tags_from(split(text@, ',')),
{
    let parts = split_chars(&chars_of(text.as_str()), ',');
    let ghost pv = char_views(parts@);
    let mut tags: Vec<String> = Vec::new();
    let mut i: usize = 0;
    while i < parts.len()
        invariant
            i <= parts.len(),
            pv == char_views(parts@),
            pv == split(text@, ','),
            string_views(tags@) == tags_from(pv.take(i as int)),
        decreases parts.len() - i,
    {
        assert(pv.take(i + 1).drop_last() =~= pv.take(i as int));
        assert(pv.take(i + 1).last() == parts@[i as int]@);
        let t = trim_chars(&parts[i]);
        if t.len() > 0 {
            let ghost before = string_views(tags@);
            tags.push(string_of(&t));
            assert(string_views(tags@) =~= before.push(t@));
        }
        i = i + 1;
    }
    assert(pv.take(parts.len() as int) =~= pv);
    tags
}

/// The greatest ID in the library, or 0 for an empty one.
pub open spec fn max_id(vns: Seq<VisualNovel>) -> int
    decreases vns.len(),
{
    if vns.len() == 0 {
        0
    } else {
        let rest = max_id(vns.drop_last());
        if rest < vns.last().id { vns.last().id as int } else { rest }
    }
}

/// The ID given to a visual novel added to the library: one more than the greatest.
pub fn next_vn_id(vns: &Vec<VisualNovel>) -> (r: u64)
    requires
        max_id(vns@) < u64::MAX,
    ensures
        r == max_id(vns@) + 1,
{
    let mut m: u64 = 0;
    let mut i: usize = 0;
    while i < vns.len()
        invariant
            i <= vns.len(),
            m == max_id(vns@.take(i as int)),
        decreases vns.len() - i,
    {
        assert(vns@.take(i + 1).drop_last() =~= vns@.take(i as int));
        if m < vns[i].id {
            m = vns[i].id;
        }
        i = i + 1;
    }
    assert(vns@.take(vns.len() as int) =~= vns@);
    m + 1
}

/// Every ID in the library lies below the one that `next_vn_id` gives (the greatest ID
/// plus one), so a new visual novel never takes an ID already in use.
pub proof fn law_new_ids_are_unused(vns: Seq<VisualNovel>)
    ensures
        forall|k: int| 0 <= k < vns.len() ==> #[trigger] vns[k].id < max_id(vns) + 1,
    decreases vns.len(),
{
    if vns.len() > 0 {
        law_new_ids_are_unused(vns.drop_last());
        assert forall|k: int| 0 <= k < vns.len() implies #[trigger] vns[k].id < max_id(vns) + 1 by {
            if k < vns.len() - 1 {
                assert(vns.drop_last()[k] == vns[k]);
            }
        }
    }
}

/// The position of the first visual novel with this ID.
pub fn find_vn(vns: &Vec<VisualNovel>, id: u64) -> (r: Option<usize>)
    ensures
        match r {
            Some(i) => i < vns@.len() && vns@[i as int].id == id && forall|k: int| 0 <= k < i ==> vns@[k].id != id,
            None => forall|k: int| 0 <= k < vns@.len() ==> vns@[k].id != id,
        },
{
    let mut i: usize = 0;
    while i < vns.len()
        invariant
            i <= vns.len(),
            forall|k: int| 0 <= k < i ==> vns@[k].id != id,
        decreases vns.len() - i,
    {
        if vns[i].id == id {
            return Some(i);
        }
        i = i + 1;
    }
    None
}

/// The Unicode lowercase of a text.
pub uninterp spec fn lowercase(s: Seq<char>) -> Seq<char>;

/// Calls `str::to_lowercase`, which gives the Unicode lowercase of the text (character by
/// character, except that a capital sigma at the end of a word becomes a final sigma).
#[verifier::external_body]
fn to_lowercase(s: &str) -> (r: String)
    ensures
        r@ == lowercase(s@),
{
    s.to_lowercase()
}

/// Whether `pat` occurs somewhere in `s`.
pub open spec fn contains_text(s: Seq<char>, pat: Seq<char>) -> bool {
    exists|i: int| occurs_at(s, pat, i)
}

fn contains_chars(s: &Vec<char>, pat: &Vec<char>) -> (r: bool)
    ensures
        r == contains_text(s@, pat@),
{
    if pat.len() == 0 {
        assert(occurs_at(s@, pat@, 0)) by {
            assert(s@.subrange(0, 0) =~= pat@);
        }
        return true;
    }
    proof { lemma_find_from_bounds(s@, pat@, 0); }
    match find_chars(s, pat, 0) {
        Some(_) => true,
        None => {
            proof {
                assert forall|i: int| !occurs_at(s@, pat@, i) by {
                    if occurs_at(s@, pat@, i) {
                        assert(0 <= i);
                    }
                }
            }
            false
        },
    }
}

/// Whether two characters are equal once ASCII capitals are made small.
pub open spec fn same_ascii_folded(a: char, b: char) -> bool {
    a == b || ('A' <= a && a <= 'Z' && (a as u32) + 32 == (b as u32)) || ('A' <= b && b <= 'Z' && (b as u32) + 32 == (a as u32))
}

/// Whether two texts are equal once ASCII capitals are made small, as
/// `str::eq_ignore_ascii_case` decides.
pub open spec fn eq_ignoring_ascii_case(a: Seq<char>, b: Seq<char>) -> bool {
    a.len() == b.len() && forall|i: int| 0 <= i < a.len() ==> same_ascii_folded(#[trigger] a[i], b[i])
}

fn eq_ignore_ascii_case(a: &String, b: &String) -> (r: bool)
    ensures
        r == eq_ignoring_ascii_case(a@, b@),
{
    let x = chars_of(a.as_str());
    let y = chars_of(b.as_str());
    if x.len() != y.len() {
        return false;
    }
    let mut i: usize = 0;
    while i < x.len()
        invariant
            x@ == a@,
            y@ == b@,
            x.len() == y.len(),
            i <= x.len(),
            forall|k: int| 0 <= k < i ==> same_ascii_folded(#[trigger] x@[k], y@[k]),
        decreases x.len() - i,
    {
        let c = x[i];
        let d = y[i];
        let same = c == d || ('A' <= c && c <= 'Z' && (c as u32) + 32 == (d as u32)) || ('A' <= d && d <= 'Z' && (d as u32) + 32 == (c as u32));
        if !same {
            return false;
        }
        i = i + 1;
    }
    true
}

/// Whether a visual novel has a tag equal to `tag`, ignoring ASCII case.
pub open spec fn has_tag(vn: VisualNovel, tag: Seq<char>) -> bool {
    exists|k: int| 0 <= k < vn.tags@.len() && eq_ignoring_ascii_case(#[trigger] vn.tags@[k]@, tag)
}

/// Whether the library shows a visual novel: its lowercase title contains the lowercase
/// search text, it is a favourite when only favourites are shown, and it has the chosen
/// tag when one is chosen.
pub open spec fn listed(vn: VisualNovel, search: Seq<char>, filter: LibraryFilterMode, tag: Option<String>) -> bool {
    &&& contains_text(lowercase(vn.title@), lowercase(search))
    &&& (filter == LibraryFilterMode::All || vn.is_favourite)
    &&& match tag {
        Some(t) => has_tag(vn, t@),
        None => true,
    }
}

/// The positions of the listed visual novels among the first `n`, in library order.
pub open spec fn listed_upto(vns: Seq<VisualNovel>, search: Seq<char>, filter: LibraryFilterMode, tag: Option<String>, n: int) -> Seq<usize>
    decreases n,
{
    if n <= 0 {
        Seq::empty()
    } else {
        let init = listed_upto(vns, search, filter, tag, n - 1);
        if listed(vns[n - 1], search, filter, tag) { init.push((n - 1) as usize) } else { init }
    }
}

/// Whether the sort mode puts the visual novel at `i` strictly before the one at `j`:
/// by lowercase title, up or down; by latest session, newest first; or by total reading
/// time, longest first. In the order they were added, no visual novel goes first.
pub open spec fn ranks_before(sort: LibrarySortMode, vns: Seq<VisualNovel>, i: int, j: int) -> bool {
    match sort {
        LibrarySortMode::Added => false,
        LibrarySortMode::TitleAsc => chars_lt(lowercase(vns[i].title@), lowercase(vns[j].title@)),
        LibrarySortMode::TitleDesc => chars_lt(lowercase(vns[j].title@), lowercase(vns[i].title@)),
        LibrarySortMode::LastPlayed => chars_lt(latest_start(vns[j].play_sessions@), latest_start(vns[i].play_sessions@)),
        LibrarySortMode::MostPlaytime => total_seconds(vns[j].play_sessions@) < total_seconds(vns[i].play_sessions@),
    }
}

/// The order of the library view: by the sort mode, and in library order where it
/// ranks two visual novels alike (the sort is stable).
pub open spec fn shown_before(sort: LibrarySortMode, vns: Seq<VisualNovel>, i: int, j: int) -> bool {
    ranks_before(sort, vns, i, j) || (!ranks_before(sort, vns, j, i) && i < j)
}

/// The view's positions in order: each adjacent pair in the view's order.
pub open spec fn in_view_order(sort: LibrarySortMode, vns: Seq<VisualNovel>, r: Seq<usize>) -> bool {
    forall|k: int| 0 <= k < r.len() - 1 ==> shown_before(sort, vns, #[trigger] r[k] as int, r[k + 1] as int)
}

fn ranks_before_exec(sort: LibrarySortMode, vns: &Vec<VisualNovel>, text_keys: &Vec<String>, number_keys: &Vec<u64>, i: usize, j: usize) -> (r: bool)
    requires
        i < vns.len(),
        j < vns.len(),
        text_keys.len() == vns.len(),
        number_keys.len() == vns.len(),
        sort == LibrarySortMode::TitleAsc || sort == LibrarySortMode::TitleDesc ==> forall|k: int| 0 <= k < vns.len() ==> (#[trigger] text_keys@[k])@ == lowercase(vns@[k].title@),
        sort == LibrarySortMode::LastPlayed ==> forall|k: int| 0 <= k < vns.len() ==> (#[trigger] text_keys@[k])@ == latest_start(vns@[k].play_sessions@),
        sort == LibrarySortMode::MostPlaytime ==> forall|k: int| 0 <= k < vns.len() ==> #[trigger] number_keys@[k] == total_seconds(vns@[k].play_sessions@),
    ensures
        r == ranks_before(sort, vns@, i as int, j as int),
{
    match sort {
        LibrarySortMode::Added => false,
        LibrarySortMode::TitleAsc => text_lt(&text_keys[i], &text_keys[j]),
        LibrarySortMode::TitleDesc => text_lt(&text_keys[j], &text_keys[i]),
        LibrarySortMode::LastPlayed => text_lt(&text_keys[j], &text_keys[i]),
        LibrarySortMode::MostPlaytime => number_keys[j] < number_keys[i],
    }
}

/// The visual novels that the library view shows, as positions in the library, in the
/// order it shows them.
pub fn library_order(vns: &Vec<VisualNovel>, search: &str, filter: LibraryFilterMode, tag: &Option<String>, sort: LibrarySortMode) -> (r: Vec<usize>)
    requires
        sort == LibrarySortMode::MostPlaytime ==> forall|k: int| 0 <= k < vns@.len() ==> total_seconds(#[trigger] vns@[k].play_sessions@) <= u64::MAX,
    ensures
        r@.to_multiset() == listed_upto(vns@, search@, filter, *tag, vns@.len() as int).to_multiset(),
        in_view_order(sort, vns@, r@),
{
    let search_lower = chars_of(to_lowercase(search).as_str());
    let mut text_keys: Vec<String> = Vec::new();
    let mut number_keys: Vec<u64> = Vec::new();
    let mut k: usize = 0;
    while k < vns.len()
        invariant
            k <= vns.len(),
            sort == LibrarySortMode::MostPlaytime ==> forall|m: int| 0 <= m < vns@.len() ==> total_seconds(#[trigger] vns@[m].play_sessions@) <= u64::MAX,
            text_keys.len() == k,
            number_keys.len() == k,
            sort == LibrarySortMode::TitleAsc || sort == LibrarySortMode::TitleDesc ==> forall|m: int| 0 <= m < k ==> (#[trigger] text_keys@[m])@ == lowercase(vns@[m].title@),
            sort == LibrarySortMode::LastPlayed ==> forall|m: int| 0 <= m < k ==> (#[trigger] text_keys@[m])@ == latest_start(vns@[m].play_sessions@),
            sort == LibrarySortMode::MostPlaytime ==> forall|m: int| 0 <= m < k ==> #[trigger] number_keys@[m] == total_seconds(vns@[m].play_sessions@),
        decreases vns.len() - k,
    {
        let vn = &vns[k];
        let text = match sort {
            LibrarySortMode::TitleAsc | LibrarySortMode::TitleDesc => to_lowercase(vn.title.as_str()),
            LibrarySortMode::LastPlayed => latest_played_at(vn),
            _ => String::new(),
        };
        let number = match sort {
            LibrarySortMode::MostPlaytime => total_playtime_seconds(vn),
            _ => 0,
        };
        text_keys.push(text);
        number_keys.push(number);
        k = k + 1;
    }
    let mut order: Vec<usize> = Vec::new();
    let mut i: usize = 0;
    while i < vns.len()
        invariant
            i <= vns.len(),
            text_keys.len() == vns.len(),
            number_keys.len() == vns.len(),
            search_lower@ == lowercase(search@),
            sort == LibrarySortMode::TitleAsc || sort == LibrarySortMode::TitleDesc ==> forall|m: int| 0 <= m < vns.len() ==> (#[trigger] text_keys@[m])@ == lowercase(vns@[m].title@),
            sort == LibrarySortMode::LastPlayed ==> forall|m: int| 0 <= m < vns.len() ==> (#[trigger] text_keys@[m])@ == latest_start(vns@[m].play_sessions@),
            sort == LibrarySortMode::MostPlaytime ==> forall|m: int| 0 <= m < vns.len() ==> #[trigger] number_keys@[m] == total_seconds(vns@[m].play_sessions@),
            order@.to_multiset() == listed_upto(vns@, search@, filter, *tag, i as int).to_multiset(),
            in_view_order(sort, vns@, order@),
            forall|m: int| 0 <= m < order@.len() ==> #[trigger] order@[m] < i,
        decreases vns.len() - i,
    {
        let vn = &vns[i];
        let title_lower = chars_of(to_lowercase(vn.title.as_str()).as_str());
        let matches_search = contains_chars(&title_lower, &search_lower);
        let matches_filter = match filter {
            LibraryFilterMode::All => true,
            LibraryFilterMode::Favourites => vn.is_favourite,
        };
        let matches_tag = match tag {
            Some(t) => {
                let mut found = false;
                let mut m: usize = 0;
                while m < vn.tags.len() && !found
                    invariant
                        m <= vn.tags.len(),
                        found ==> m < vn.tags.len() && eq_ignoring_ascii_case(vn.tags@[m as int]@, t@),
                        !found ==> forall|q: int| 0 <= q < m ==> !eq_ignoring_ascii_case(#[trigger] vn.tags@[q]@, t@),
                    decreases vn.tags.len() - m, if found { 0int } else { 1int },
                {
                    if eq_ignore_ascii_case(&vn.tags[m], t) {
                        found = true;
                    } else {
                        m = m + 1;
                    }
                }
                found
            },
            None => true,
        };
        let ghost before = order@;
        if matches_search && matches_filter && matches_tag {
            let mut p: usize = 0;
            let mut placed = false;
            while p < order.len() && !placed
                invariant
                    order@ == before,
                    p <= order.len(),
                    i < vns.len(),
                    text_keys.len() == vns.len(),
                    number_keys.len() == vns.len(),
                    sort == LibrarySortMode::TitleAsc || sort == LibrarySortMode::TitleDesc ==> forall|m: int| 0 <= m < vns.len() ==> (#[trigger] text_keys@[m])@ == lowercase(vns@[m].title@),
                    sort == LibrarySortMode::LastPlayed ==> forall|m: int| 0 <= m < vns.len() ==> (#[trigger] text_keys@[m])@ == latest_start(vns@[m].play_sessions@),
                    sort == LibrarySortMode::MostPlaytime ==> forall|m: int| 0 <= m < vns.len() ==> #[trigger] number_keys@[m] == total_seconds(vns@[m].play_sessions@),
                    forall|m: int| 0 <= m < order@.len() ==> #[trigger] order@[m] < i,
                    placed ==> p < order.len() && ranks_before(sort, vns@, i as int, before[p as int] as int),
                    forall|q: int| 0 <= q < p ==> !ranks_before(sort, vns@, i as int, #[trigger] before[q] as int),
                decreases order.len() - p, if placed { 0int } else { 1int },
            {
                if ranks_before_exec(sort, vns, &text_keys, &number_keys, i, order[p]) {
                    placed = true;
                } else {
                    p = p + 1;
                }
            }
            order.insert(p, i);
            proof {
                let a = order@;
                assert(a =~= before.insert(p as int, i));
                vstd::seq_lib::to_multiset_insert(before, p as int, i);
                assert(listed(vns@[i as int], search@, filter, *tag)) by {
                    assert(title_lower@ == lowercase(vns@[i as int].title@));
                    if let Some(t) = tag {
                        if matches_tag {
                            assert(has_tag(vns@[i as int], t@));
                        }
                    }
                }
                assert(listed_upto(vns@, search@, filter, *tag, i + 1) == listed_upto(vns@, search@, filter, *tag, i as int).push(i));
                let lu = listed_upto(vns@, search@, filter, *tag, i as int);
                assert(lu.insert(lu.len() as int, i) =~= lu.push(i));
                vstd::seq_lib::to_multiset_insert(lu, lu.len() as int, i);
                assert forall|j: int| 0 <= j < a.len() - 1 implies shown_before(sort, vns@, #[trigger] a[j] as int, a[j + 1] as int) by {
                    if j + 1 < p {
                        assert(a[j] == before[j] && a[j + 1] == before[j + 1]);
                    } else if j + 1 == p {
                        assert(a[j] == before[j] && a[j + 1] == i);
                        assert(!ranks_before(sort, vns@, i as int, before[j] as int));
                        assert(before[j] < i);
                    } else if j == p {
                        assert(a[j] == i && a[j + 1] == before[j]);
                    } else {
                        assert(a[j] == before[j - 1] && a[j + 1] == before[j]);
                        let q = j - 1;
                        assert(shown_before(sort, vns@, before[q] as int, before[q + 1] as int));
                    }
                }
                assert forall|m: int| 0 <= m < a.len() implies #[trigger] a[m] < i + 1 by {
                    if m < p { assert(a[m] == before[m]); } else if m > p { assert(a[m] == before[m - 1]); }
                }
            }
        } else {
            proof {
                if listed(vns@[i as int], search@, filter, *tag) {
                    assert(title_lower@ == lowercase(vns@[i as int].title@));
                    assert(matches_search);
                    assert(matches_filter);
                    if let Some(t) = tag {
                        let q = choose|q: int| 0 <= q < vns@[i as int].tags@.len() && eq_ignoring_ascii_case(#[trigger] vns@[i as int].tags@[q]@, t@);
                        assert(matches_tag);
                    }
                    assert(false);
                }
                assert(listed_upto(vns@, search@, filter, *tag, i + 1) == listed_upto(vns@, search@, filter, *tag, i as int));
            }
        }
        i = i + 1;
    }
    order
}

/// Every tag of the library, visual novel after visual novel.
pub open spec fn all_tags(vns: Seq<VisualNovel>) -> Seq<Seq<char>>
    decreases vns.len(),
{
    if vns.len() == 0 {
        Seq::empty()
    } else {
        all_tags(vns.drop_last()) + string_views(vns.last().tags@)
    }
}

/// Whether the tag at `i` goes before the one at `j` when tags are sorted by their
/// lowercase text, tags with the same lowercase text keeping their order.
pub open spec fn tag_before(tags: Seq<Seq<char>>, i: int, j: int) -> bool {
    chars_lt(lowercase(tags[i]), lowercase(tags[j]))
        || (!chars_lt(lowercase(tags[j]), lowercase(tags[i])) && i < j)
}

/// The positions `0..n`.
pub open spec fn positions(n: int) -> Seq<usize> {
    Seq::new(n as nat, |k: int| k as usize)
}

/// `order` lists every position of `tags` once, in sorted order.
pub open spec fn sorted_tag_order(tags: Seq<Seq<char>>, order: Seq<usize>) -> bool {
    &&& order.to_multiset() == positions(tags.len() as int).to_multiset()
    &&& forall|k: int| 0 <= k < order.len() - 1 ==> tag_before(tags, #[trigger] order[k] as int, order[k + 1] as int)
}

/// Drops each tag that equals, ignoring ASCII case, the tag kept just before it.
pub open spec fn without_repeats(tags: Seq<Seq<char>>) -> Seq<Seq<char>>
    decreases tags.len(),
{
    if tags.len() == 0 {
        Seq::empty()
    } else {
        let kept = without_repeats(tags.drop_last());
        if kept.len() > 0 && eq_ignoring_ascii_case(tags.last(), kept.last()) { kept } else { kept.push(tags.last()) }
    }
}

/// The tags that the tag filter offers: every tag of the library, sorted by its lowercase
/// text, and of tags equal but for ASCII case the first one only.
pub fn available_tags(vns: &Vec<VisualNovel>) -> (r: Vec<String>)
    ensures
        exists|order: Seq<usize>| #[trigger] sorted_tag_order(all_tags(vns@), order)
            && string_views(r@) == without_repeats(order.map_values(|i: usize| all_tags(vns@)[i as int])),
{
    let mut all: Vec<String> = Vec::new();
    let mut v: usize = 0;
    while v < vns.len()
        invariant
            v <= vns.len(),
            string_views(all@) == all_tags(vns@.take(v as int)),
        decreases vns.len() - v,
    {
        assert(vns@.take(v + 1).drop_last() =~= vns@.take(v as int));
        let tags = &vns[v].tags;
        let ghost before = string_views(all@);
        let mut t: usize = 0;
        while t < tags.len()
            invariant
                t <= tags.len(),
                string_views(all@) == before + string_views(tags@.take(t as int)),
            decreases tags.len() - t,
        {
            let ghost prior = string_views(all@);
            all.push(tags[t].clone());
            assert(string_views(all@) =~= prior.push(tags@[t as int]@));
            assert(string_views(tags@.take(t + 1)) =~= string_views(tags@.take(t as int)).push(tags@[t as int]@));
            assert(string_views(all@) =~= before + string_views(tags@.take(t + 1)));
            t = t + 1;
        }
        assert(tags@.take(tags.len() as int) =~= tags@);
        v = v + 1;
    }
    assert(vns@.take(vns.len() as int) =~= vns@);
    let ghost tv = string_views(all@);
    let mut keys: Vec<String> = Vec::new();
    let mut k: usize = 0;
    while k < all.len()
        invariant
            k <= all.len(),
            tv == string_views(all@),
            keys.len() == k,
            forall|m: int| 0 <= m < k ==> (#[trigger] keys@[m])@ == lowercase(tv[m]),
        decreases all.len() - k,
    {
        keys.push(to_lowercase(all[k].as_str()));
        k = k + 1;
    }
    let mut order: Vec<usize> = Vec::new();
    assert(positions(0) =~= order@);
    let mut i: usize = 0;
    while i < all.len()
        invariant
            i <= all.len(),
            tv == string_views(all@),
            keys.len() == all.len(),
            forall|m: int| 0 <= m < all.len() ==> (#[trigger] keys@[m])@ == lowercase(tv[m]),
            order@.to_multiset() == positions(i as int).to_multiset(),
            forall|m: int| 0 <= m < order@.len() ==> #[trigger] order@[m] < i,
            forall|m: int| 0 <= m < order@.len() - 1 ==> tag_before(tv, #[trigger] order@[m] as int, order@[m + 1] as int),
        decreases all.len() - i,
    {
        let ghost before = order@;
        let mut p: usize = 0;
        let mut placed = false;
        while p < order.len() && !placed
            invariant
                order@ == before,
                p <= order.len(),
                i < all.len(),
                keys.len() == all.len(),
                forall|m: int| 0 <= m < all.len() ==> (#[trigger] keys@[m])@ == lowercase(tv[m]),
                forall|m: int| 0 <= m < order@.len() ==> #[trigger] order@[m] < i,
                placed ==> p < order.len() && chars_lt(lowercase(tv[i as int]), lowercase(tv[before[p as int] as int])),
                forall|q: int| 0 <= q < p ==> !chars_lt(lowercase(tv[i as int]), lowercase(tv[#[trigger] before[q] as int])),
            decreases order.len() - p, if placed { 0int } else { 1int },
        {
            if text_lt(&keys[i], &keys[order[p]]) {
                placed = true;
            } else {
                p = p + 1;
            }
        }
        order.insert(p, i);
        proof {
            let a = order@;
            assert(a =~= before.insert(p as int, i));
            vstd::seq_lib::to_multiset_insert(before, p as int, i);
            let ps = positions(i as int);
            assert(positions(i + 1) =~= ps.insert(ps.len() as int, i));
            vstd::seq_lib::to_multiset_insert(ps, ps.len() as int, i);
            assert forall|j: int| 0 <= j < a.len() - 1 implies tag_before(tv, #[trigger] a[j] as int, a[j + 1] as int) by {
                if j + 1 < p {
                    assert(a[j] == before[j] && a[j + 1] == before[j + 1]);
                } else if j + 1 == p {
                    assert(a[j] == before[j] && a[j + 1] == i);
                    assert(before[j] < i);
                } else if j == p {
                    assert(a[j] == i && a[j + 1] == before[j]);
                } else {
                    assert(a[j] == before[j - 1] && a[j + 1] == before[j]);
                    let q = j - 1;
                    assert(tag_before(tv, before[q] as int, before[q + 1] as int));
                }
            }
            assert forall|m: int| 0 <= m < a.len() implies #[trigger] a[m] < i + 1 by {
                if m < p { assert(a[m] == before[m]); } else if m > p { assert(a[m] == before[m - 1]); }
            }
        }
        i = i + 1;
    }
    let ghost sorted = order@.map_values(|q: usize| tv[q as int]);
    proof {
        assert forall|m: int| 0 <= m < order@.len() implies #[trigger] order@[m] < all@.len() by {}
    }
    let mut r: Vec<String> = Vec::new();
    let mut j: usize = 0;
    while j < order.len()
        invariant
            j <= order.len(),
            tv == string_views(all@),
            sorted == order@.map_values(|q: usize| tv[q as int]),
            forall|m: int| 0 <= m < order@.len() ==> #[trigger] order@[m] < all@.len(),
            string_views(r@) == without_repeats(sorted.take(j as int)),
        decreases order.len() - j,
    {
        assert(sorted.take(j + 1).drop_last() =~= sorted.take(j as int));
        let tag = &all[order[j]];
        assert(tag@ == sorted[j as int]);
        let repeat = r.len() > 0 && eq_ignore_ascii_case(tag, &r[r.len() - 1]);
        if !repeat {
            let ghost kept = string_views(r@);
            r.push(tag.clone());
            assert(string_views(r@) =~= kept.push(tag@));
        }
        j = j + 1;
    }
    assert(sorted.take(order.len() as int) =~= sorted);
    assert(sorted_tag_order(all_tags(vns@), order@));
    r
}

/// The value by which the sort selector names a sort mode.
pub open spec fn sort_mode_text(mode: LibrarySortMode) -> Seq<char> {
    match mode {
        LibrarySortMode::Added => "added"@,
        LibrarySortMode::TitleAsc => "title-asc"@,
        LibrarySortMode::TitleDesc => "title-desc"@,
        LibrarySortMode::LastPlayed => "last-played"@,
        LibrarySortMode::MostPlaytime => "most-playtime"@,
    }
}

/// The sort mode a selector value chooses; an unknown value chooses the order of adding.
pub open spec fn sort_mode_named(value: Seq<char>) -> LibrarySortMode {
    if value == "title-asc"@ {
        LibrarySortMode::TitleAsc
    } else if value == "title-desc"@ {
        LibrarySortMode::TitleDesc
    } else if value == "last-played"@ {
        LibrarySortMode::LastPlayed
    } else if value == "most-playtime"@ {
        LibrarySortMode::MostPlaytime
    } else {
        LibrarySortMode::Added
    }
}

/// The selector value of a sort mode.
pub fn sort_mode_value(mode: LibrarySortMode) -> (r: &'static str)
    ensures
        r@ == sort_mode_text(mode),
{
    match mode {
        LibrarySortMode::Added => "added",
        LibrarySortMode::TitleAsc => "title-asc",
        LibrarySortMode::TitleDesc => "title-desc",
        LibrarySortMode::LastPlayed => "last-played",
        LibrarySortMode::MostPlaytime => "most-playtime",
    }
}

/// The sort mode that a selector value chooses.
pub fn sort_mode_from_value(value: &str) -> (r: LibrarySortMode)
    ensures
        r == sort_mode_named(value@),
{
    if same_text(value, "title-asc") {
        LibrarySortMode::TitleAsc
    } else if same_text(value, "title-desc") {
        LibrarySortMode::TitleDesc
    } else if same_text(value, "last-played") {
        LibrarySortMode::LastPlayed
    } else if same_text(value, "most-playtime") {
        LibrarySortMode::MostPlaytime
    } else {
        LibrarySortMode::Added
    }
}

/// Choosing a sort mode by its selector value gives that sort mode back.
pub proof fn law_sort_mode_values_round_trip(mode: LibrarySortMode)
    ensures
        sort_mode_named(sort_mode_text(mode)) == mode,
{
    reveal_strlit("added");
    reveal_strlit("title-asc");
    reveal_strlit("title-desc");
    reveal_strlit("last-played");
    reveal_strlit("most-playtime");
    match mode {
        LibrarySortMode::Added => {
            assert("added"@ != "title-asc"@ && "added"@ != "title-desc"@ && "added"@ != "last-played"@ && "added"@ != "most-playtime"@) by {
                assert("added"@[0] != "title-asc"@[0]);
                assert("added"@[0] != "last-played"@[0]);
                assert("added"@[0] != "most-playtime"@[0]);
            }
        },
        LibrarySortMode::TitleAsc => {},
        LibrarySortMode::TitleDesc => {
            assert("title-desc"@ != "title-asc"@) by { assert("title-desc"@.len() != "title-asc"@.len()); }
        },
        LibrarySortMode::LastPlayed => {
            assert("last-played"@[0] != "title-asc"@[0]);
            assert("last-played"@[0] != "title-desc"@[0]);
        },
        LibrarySortMode::MostPlaytime => {
            assert("most-playtime"@[0] != "title-asc"@[0]);
            assert("most-playtime"@[0] != "title-desc"@[0]);
            assert("most-playtime"@[0] != "last-played"@[0]);
        },
    }
}

} // verus!
