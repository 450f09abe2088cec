use vstd::prelude::*;

use crate::models::{default_umu_game_id, AppNotification, LaunchMode, NotificationLevel, StoryRoute, VisualNovel};
use crate::system::is_flatpak_document_portal_path;
use crate::text::{chars_of, starts_with, string_of, trim_chars, trimmed};

verus! {

/// One change that the detail panel makes to a visual novel.
#[derive(Debug, PartialEq)]
pub enum VnEdit {
    ToggleFavourite,
    Notes(String),
    AddRoute(String),
    ToggleRoute(String),
    DeleteRoute(String),
    ExecutablePath(String),
    LaunchMode(LaunchMode),
    WineBinary(String),
    ProtonPath(String),
    UmuGameId(String),
    WinePrefix(String),
    WineLocale(String),
    LaunchArguments(String),
    LaunchEnvironment(String),
    Description(String),
    Tags(Vec<String>),
    CoverPath(String),
    ActiveRoute(Option<String>),
}

pub open spec fn in_document_portal(path: Seq<char>) -> bool {
    starts_with(trimmed(path), "/run/flatpak/doc/"@)
}

/// Why an edit is refused: a path chosen through Flatpak's temporary document portal.
pub open spec fn edit_refusal(edit: VnEdit) -> Option<Seq<char>> {
    match edit {
        VnEdit::ExecutablePath(p) => if in_document_portal(p@) {
            Some("The executable has been selected through Flatpak's temporary document portal. Move the game into a normal folder such as ~/Games, then type or select the real path."@)
        } else {
            None
        },
        VnEdit::WinePrefix(p) => if in_document_portal(p@) {
            Some("The Wine prefix has been selected through Flatpak's temporary document portal. Grant Kakera access to the folder, then reselect the real path."@)
        } else {
            None
        },
        VnEdit::CoverPath(p) => if in_document_portal(p@) {
            Some("The cover image has been selected through Flatpak's temporary document portal. Grant Kakera access to the folder, then reselect the real path."@)
        } else {
            None
        },
        _ => None,
    }
}

fn error_notification(message: &str) -> (r: AppNotification)
    ensures
        r.level == NotificationLevel::Error,
        r.message@ == message@,
{
    AppNotification { level: NotificationLevel::Error, message: message.to_owned() }
}

fn portal_path(path: &String) -> (r: bool)
    ensures
        r == in_document_portal(path@),
{
    let t = string_of(&trim_chars(&chars_of(path.as_str())));
    is_flatpak_document_portal_path(t.as_str())
}

/// Checks an edit before it is made: the error notification for a path chosen through
/// Flatpak's temporary document portal, which does not last.
pub fn check_edit(edit: &VnEdit) -> (r: Result<(), AppNotification>)
    ensures
        match edit_refusal(*edit) {
            Some(m) => r matches Err(n) && n.level == NotificationLevel::Error && n.message@ == m,
            None => r is Ok,
        },
{
    match edit {
        VnEdit::ExecutablePath(p) => if portal_path(p) {
            return Err(error_notification("The executable has been selected through Flatpak's temporary document portal. Move the game into a normal folder such as ~/Games, then type or select the real path."));
        },
        VnEdit::WinePrefix(p) => if portal_path(p) {
            return Err(error_notification("The Wine prefix has been selected through Flatpak's temporary document portal. Grant Kakera access to the folder, then reselect the real path."));
        },
        VnEdit::CoverPath(p) => if portal_path(p) {
            return Err(error_notification("The cover image has been selected through Flatpak's temporary document portal. Grant Kakera access to the folder, then reselect the real path."));
        },
        _ => {},
    }
    Ok(())
}

pub open spec fn text_view(o: Option<String>) -> Option<Seq<char>> {
    match o {
        Some(s) => Some(s@),
        None => None,
    }
}

/// A text field where an empty text means "not set".
pub open spec fn optional_text(s: Seq<char>) -> Option<Seq<char>> {
    if s.len() == 0 { None } else { Some(s) }
}

/// The routes after toggling the completion of the first route named `name`.
pub open spec fn toggled_routes(routes: Seq<StoryRoute>, name: Seq<char>) -> Seq<StoryRoute>
    decreases routes.len(),
{
    if routes.len() == 0 {
        routes
    } else if routes[0].name@ == name {
        routes.update(0, StoryRoute { completed: !routes[0].completed, ..routes[0] })
    } else {
        seq![routes[0]] + toggled_routes(routes.drop_first(), name)
    }
}

/// Toggling the completion of a route twice gives the routes back as they were.
pub proof fn law_toggling_a_route_twice_restores_it(routes: Seq<StoryRoute>, name: Seq<char>)
    ensures
        toggled_routes(toggled_routes(routes, name), name) == routes,
    decreases routes.len(),
{
    let once = toggled_routes(routes, name);
    if routes.len() == 0 {
    } else if routes[0].name@ == name {
        assert(once[0].name@ == name);
        assert(toggled_routes(once, name) =~= routes);
    } else {
        let rest = routes.drop_first();
        law_toggling_a_route_twice_restores_it(rest, name);
        assert(once[0] == routes[0]);
        assert(once.drop_first() =~= toggled_routes(rest, name));
        assert(toggled_routes(once, name) =~= seq![routes[0]] + rest);
        assert(seq![routes[0]] + rest =~= routes);
    }
}

/// Whether a route is kept when the routes named `name` are deleted.
pub open spec fn route_kept(name: Seq<char>) -> spec_fn(StoryRoute) -> bool {
    |r: StoryRoute| r.name@ != name
}

/// The routes without those named `name`, in order.
pub open spec fn without_route(routes: Seq<StoryRoute>, name: Seq<char>) -> Seq<StoryRoute> {
    routes.filter(route_kept(name))
}

/// Whether a visual novel is kept when those with ID `id` are deleted.
pub open spec fn vn_kept(id: u64) -> spec_fn(VisualNovel) -> bool {
    |vn: VisualNovel| vn.id != id
}

proof fn lemma_filter_push<A>(s: Seq<A>, f: spec_fn(A) -> bool, x: A)
    ensures
        s.push(x).filter(f) == if f(x) { s.filter(f).push(x) } else { s.filter(f) },
{
    reveal(Seq::filter);
    assert(s.push(x).drop_last() =~= s);
    assert(s.push(x).last() == x);
}

/// `after` differs from `before` at most in the fields that an edit sets.
pub open spec fn same_except_edited(after: VisualNovel, before: VisualNovel, edit: VnEdit) -> bool {
    match edit {
        VnEdit::ToggleFavourite => after == (VisualNovel { is_favourite: after.is_favourite, ..before }),
        VnEdit::Notes(_) => after == (VisualNovel { notes: after.notes, ..before }),
        VnEdit::AddRoute(_) | VnEdit::ToggleRoute(_) => after == (VisualNovel { routes: after.routes, ..before }),
        VnEdit::DeleteRoute(_) => after == (VisualNovel { routes: after.routes, active_route: after.active_route, ..before }),
        VnEdit::ExecutablePath(_) => after == (VisualNovel { executable_path: after.executable_path, ..before }),
        VnEdit::LaunchMode(_) => after == (VisualNovel { launch_mode: after.launch_mode, ..before }),
        VnEdit::WineBinary(_) => after == (VisualNovel { wine_binary: after.wine_binary, ..before }),
        VnEdit::ProtonPath(_) => after == (VisualNovel { proton_path: after.proton_path, ..before }),
        VnEdit::UmuGameId(_) => after == (VisualNovel { umu_game_id: after.umu_game_id, ..before }),
        VnEdit::WinePrefix(_) => after == (VisualNovel { wine_prefix: after.wine_prefix, ..before }),
        VnEdit::WineLocale(_) => after == (VisualNovel { wine_locale: after.wine_locale, ..before }),
        VnEdit::LaunchArguments(_) => after == (VisualNovel { launch_arguments: after.launch_arguments, ..before }),
        VnEdit::LaunchEnvironment(_) => after == (VisualNovel { launch_environment: after.launch_environment, ..before }),
        VnEdit::Description(_) => after == (VisualNovel { description: after.description, ..before }),
        VnEdit::Tags(_) => after == (VisualNovel { tags: after.tags, ..before }),
        VnEdit::CoverPath(_) => after == (VisualNovel { cover_path: after.cover_path, ..before }),
        VnEdit::ActiveRoute(_) => after == (VisualNovel { active_route: after.active_route, ..before }),
    }
}

/// What an edit sets.
pub open spec fn edited_as(after: VisualNovel, before: VisualNovel, edit: VnEdit) -> bool {
    match edit {
        VnEdit::ToggleFavourite => after.is_favourite == !before.is_favourite,
        VnEdit::Notes(n) => after.notes == n,
        VnEdit::AddRoute(name) => after.routes@ == before.routes@.push(StoryRoute { name, completed: false, notes: None }),
        VnEdit::ToggleRoute(name) => after.routes@ == toggled_routes(before.routes@, name@),
        VnEdit::DeleteRoute(name) => {
            &&& after.routes@ == without_route(before.routes@, name@)
            &&& text_view(after.active_route) == if text_view(before.active_route) == Some(name@) { None } else { text_view(before.active_route) }
        },
        VnEdit::ExecutablePath(p) => text_view(after.executable_path) == optional_text(trimmed(p@)),
        VnEdit::LaunchMode(m) => after.launch_mode == m,
        VnEdit::WineBinary(b) => text_view(after.wine_binary) == optional_text(b@),
        VnEdit::ProtonPath(p) => text_view(after.proton_path) == optional_text(p@),
        VnEdit::UmuGameId(g) => after.umu_game_id@ == if trimmed(g@).len() == 0 { "umu-default"@ } else { g@ },
        VnEdit::WinePrefix(p) => text_view(after.wine_prefix) == optional_text(trimmed(p@)),
        VnEdit::WineLocale(l) => text_view(after.wine_locale) == optional_text(l@),
        VnEdit::LaunchArguments(a) => after.launch_arguments == a,
        VnEdit::LaunchEnvironment(e) => after.launch_environment == e,
        VnEdit::Description(d) => text_view(after.description) == optional_text(d@),
        VnEdit::Tags(t) => after.tags == t,
        VnEdit::CoverPath(p) => text_view(after.cover_path) == Some(trimmed(p@)),
        VnEdit::ActiveRoute(r) => after.active_route == r,
    }
}

fn optional(s: String) -> (r: Option<String>)
    ensures
        text_view(r) == optional_text(s@),
{
    if s.as_str().is_empty() { None } else { Some(s) }
}

fn trimmed_text(s: &String) -> (r: String)
    ensures
        r@ == trimmed(s@),
{
    string_of(&trim_chars(&chars_of(s.as_str())))
}

fn toggle_route(routes: &Vec<StoryRoute>, name: &String) -> (r: Vec<StoryRoute>)
    ensures
        r@ == toggled_routes(routes@, name@),
{
    let mut out: Vec<StoryRoute> = Vec::new();
    let mut i: usize = 0;
    let mut done = false;
    assert(routes@.skip(0) =~= routes@);
    assert(out@ + toggled_routes(routes@, name@) =~= toggled_routes(routes@, name@));
    while i < routes.len()
        invariant
            i <= routes.len(),
            !done ==> out@ + toggled_routes(routes@.skip(i as int), name@) == toggled_routes(routes@, name@),
            done ==> out@ + routes@.skip(i as int) == toggled_routes(routes@, name@),
        decreases routes.len() - i,
    {
        let ghost rest = routes@.skip(i as int);
        assert(rest[0] == routes@[i as int]);
        assert(rest.drop_first() =~= routes@.skip(i + 1));
        let route = routes[i].clone();
        if !done && route.name.eq(name) {
            let toggled = StoryRoute { completed: !route.completed, ..route };
            let ghost before = out@;
            out.push(toggled);
            assert(toggled_routes(rest, name@) == rest.update(0, toggled));
            assert(before + rest.update(0, toggled) =~= out@ + routes@.skip(i + 1));
            done = true;
        } else {
            let ghost before = out@;
            out.push(route);
            if !done {
                assert(toggled_routes(rest, name@) == seq![rest[0]] + toggled_routes(rest.drop_first(), name@));
                assert(before + (seq![rest[0]] + toggled_routes(rest.drop_first(), name@)) =~= out@ + toggled_routes(routes@.skip(i + 1), name@));
            } else {
                assert(before + rest =~= out@ + routes@.skip(i + 1));
            }
        }
        i = i + 1;
    }
    assert(routes@.skip(i as int) =~= Seq::<StoryRoute>::empty());
    assert(out@ + Seq::<StoryRoute>::empty() =~= out@);
    out
}

fn remove_route(routes: &Vec<StoryRoute>, name: &String) -> (r: Vec<StoryRoute>)
    ensures
        r@ == without_route(routes@, name@),
{
    let mut out: Vec<StoryRoute> = Vec::new();
    let mut i: usize = 0;
    while i < routes.len()
        invariant
            i <= routes.len(),
            out@ == without_route(routes@.take(i as int), name@),
        decreases routes.len() - i,
    {
        let route = routes[i].clone();
        assert(routes@.take(i + 1) =~= routes@.take(i as int).push(routes@[i as int]));
        proof { lemma_filter_push(routes@.take(i as int), route_kept(name@), routes@[i as int]); }
        if !route.name.eq(name) {
            out.push(route);
        }
        i = i + 1;
    }
    assert(routes@.take(routes.len() as int) =~= routes@);
    out
}

/// Makes one edit on a visual novel.
pub fn apply_edit(vn: VisualNovel, edit: VnEdit) -> (r: VisualNovel)
    ensures
        same_except_edited(r, vn, edit),
        edited_as(r, vn, edit),
{
    let mut vn = vn;
    match edit {
        VnEdit::ToggleFavourite => {
            vn.is_favourite = !vn.is_favourite;
        },
        VnEdit::Notes(n) => {
            vn.notes = n;
        },
        VnEdit::AddRoute(name) => {
            vn.routes.push(StoryRoute { name, completed: false, notes: None });
        },
        VnEdit::ToggleRoute(name) => {
            vn.routes = toggle_route(&vn.routes, &name);
        },
        VnEdit::DeleteRoute(name) => {
            vn.routes = remove_route(&vn.routes, &name);
            let clear = match &vn.active_route {
                Some(a) => a.eq(&name),
                None => false,
            };
            if clear {
                vn.active_route = None;
            }
        },
        VnEdit::ExecutablePath(p) => {
            vn.executable_path = optional(trimmed_text(&p));
        },
        VnEdit::LaunchMode(m) => {
            vn.launch_mode = m;
        },
        VnEdit::WineBinary(b) => {
            vn.wine_binary = optional(b);
        },
        VnEdit::ProtonPath(p) => {
            vn.proton_path = optional(p);
        },
        VnEdit::UmuGameId(g) => {
            if trim_chars(&chars_of(g.as_str())).len() == 0 {
                vn.umu_game_id = default_umu_game_id();
            } else {
                vn.umu_game_id = g;
            }
        },
        VnEdit::WinePrefix(p) => {
            vn.wine_prefix = optional(trimmed_text(&p));
        },
        VnEdit::WineLocale(l) => {
            vn.wine_locale = optional(l);
        },
        VnEdit::LaunchArguments(a) => {
            vn.launch_arguments = a;
        },
        VnEdit::LaunchEnvironment(e) => {
            vn.launch_environment = e;
        },
        VnEdit::Description(d) => {
            vn.description = optional(d);
        },
        VnEdit::Tags(t) => {
            vn.tags = t;
        },
        VnEdit::CoverPath(p) => {
            vn.cover_path = Some(trimmed_text(&p));
        },
        VnEdit::ActiveRoute(r) => {
            vn.active_route = r;
        },
    }
    vn
}

/// The position of the first visual novel with ID `id`.
pub open spec fn first_with_id(vns: Seq<VisualNovel>, id: u64) -> Option<int>
    decreases vns.len(),
{
    if vns.len() == 0 {
        None
    } else if vns[0].id == id {
        Some(0)
    } else {
        match first_with_id(vns.drop_first(), id) {
            Some(k) => Some(k + 1),
            None => None,
        }
    }
}

/// Makes an edit on the first visual novel with ID `id` (the library is saved afterwards
/// by the caller); a refused edit leaves the library as it was and gives the notification
/// to show.
pub fn edit_library(vns: Vec<VisualNovel>, id: u64, edit: VnEdit) -> (r: Result<Vec<VisualNovel>, AppNotification>)
    ensures
        match edit_refusal(edit) {
            Some(m) => r matches Err(n) && n.level == NotificationLevel::Error && n.message@ == m,
            None => r matches Ok(out) && out@.len() == vns@.len() && match first_with_id(vns@, id) {
                None => out@ == vns@,
                Some(k) => out@ == vns@.update(k, out@[k]) && same_except_edited(out@[k], vns@[k], edit)
                    && edited_as(out@[k], vns@[k], edit),
            },
        },
{
    match check_edit(&edit) {
        Err(n) => return Err(n),
        Ok(()) => {},
    }
    let ghost all = vns@;
    let mut rest = vns;
    let mut reversed: Vec<VisualNovel> = Vec::new();
    while rest.len() > 0
        invariant
            rest@ == all.take(rest@.len() as int),
            reversed@.len() + rest@.len() == all.len(),
            forall|i: int| #![trigger reversed@[i]] 0 <= i < reversed@.len() ==> reversed@[i] == all[all.len() - 1 - i],
        decreases rest.len(),
    {
        let ghost n = rest@.len();
        let vn = rest.pop().unwrap();
        assert(rest@ =~= all.take(n - 1));
        reversed.push(vn);
    }
    let mut out: Vec<VisualNovel> = Vec::new();
    let mut pending = Some(edit);
    let ghost the_edit = edit;
    while reversed.len() > 0
        invariant
            reversed@.len() + out@.len() == all.len(),
            forall|i: int| #![trigger reversed@[i]] 0 <= i < reversed@.len() ==> reversed@[i] == all[all.len() - 1 - i],
            pending is Some ==> pending == Some(the_edit) && first_with_id(all.take(out@.len() as int), id) is None && out@ == all.take(out@.len() as int),
            pending is None ==> (first_with_id(all, id) matches Some(k) && 0 <= k < out@.len()
                && out@ == all.take(out@.len() as int).update(k, out@[k]) && same_except_edited(out@[k], all[k], the_edit)
                && edited_as(out@[k], all[k], the_edit)),
        decreases reversed.len(),
    {
        let ghost n = reversed@.len();
        let ghost m: int = out@.len() as int;
        let ghost old_reversed = reversed@;
        let vn = reversed.pop().unwrap();
        assert(vn == all[m]);
        assert(forall|i: int| 0 <= i < reversed@.len() ==> reversed@[i] == old_reversed[i]);
        proof { lemma_first_with_id_push(all.take(m as int), all[m as int], id); }
        assert(all.take(m + 1) =~= all.take(m as int).push(all[m as int]));
        let ghost old_out = out@;
        if vn.id == id && pending.is_some() {
            let e = pending.take().unwrap();
            let changed = apply_edit(vn, e);
            out.push(changed);
            proof {
                lemma_first_with_id_prefix(all, id, m + 1);
                assert(out@ =~= all.take(m + 1).update(m, out@[m]));
            }
        } else {
            let ghost v = vn;
            out.push(vn);
            assert(out@ == old_out.push(v));
            proof {
                if pending is None {
                    let k = first_with_id(all, id)->Some_0;
                    assert(k < old_out.len());
                    assert(old_out == all.take(m).update(k, old_out[k]));
                    assert(out@[k] == old_out[k]);
                    assert(out@ =~= all.take(m + 1).update(k, out@[k]));
                } else {
                    assert(out@ =~= all.take(m + 1));
                }
            }
        }
    }
    proof {
        assert(all.take(all.len() as int) =~= all);
    }
    Ok(out)
}

proof fn lemma_first_with_id_push(vns: Seq<VisualNovel>, vn: VisualNovel, id: u64)
    ensures
        first_with_id(vns.push(vn), id) == match first_with_id(vns, id) {
            Some(k) => Some(k),
            None => if vn.id == id { Some(vns.len() as int) } else { None },
        },
        first_with_id(vns, id) matches Some(k) ==> 0 <= k < vns.len() && vns[k].id == id,
    decreases vns.len(),
{
    let p = vns.push(vn);
    if vns.len() == 0 {
        assert(p.drop_first() =~= Seq::<VisualNovel>::empty());
        assert(p[0] == vn);
        assert(first_with_id(p.drop_first(), id) is None);
    } else {
        assert(p[0] == vns[0]);
        assert(p.drop_first() =~= vns.drop_first().push(vn));
        lemma_first_with_id_push(vns.drop_first(), vn, id);
        if vns[0].id != id {
            match first_with_id(vns.drop_first(), id) {
                Some(k) => {
                    assert(vns.drop_first()[k] == vns[k + 1]);
                },
                None => {},
            }
        }
    }
}

proof fn lemma_first_with_id_prefix(vns: Seq<VisualNovel>, id: u64, n: int)
    requires
        0 <= n <= vns.len(),
        first_with_id(vns.take(n), id) is Some,
    ensures
        first_with_id(vns, id) == first_with_id(vns.take(n), id),
    decreases vns.len() - n,
{
    if n < vns.len() {
        assert(vns.take(n + 1) =~= vns.take(n).push(vns[n]));
        lemma_first_with_id_push(vns.take(n), vns[n], id);
        lemma_first_with_id_prefix(vns, id, n + 1);
    } else {
        assert(vns.take(n) =~= vns);
    }
}

/// Removes every visual novel with ID `id` from the library.
pub fn delete_vn(vns: Vec<VisualNovel>, id: u64) -> (r: Vec<VisualNovel>)
    ensures
        r@ == vns@.filter(vn_kept(id)),
{
    let ghost all = vns@;
    let mut out: Vec<VisualNovel> = Vec::new();
    let mut rest = vns;
    let mut reversed: Vec<VisualNovel> = Vec::new();
    while rest.len() > 0
        invariant
            rest@ == all.take(rest@.len() as int),
            reversed@.len() + rest@.len() == all.len(),
            forall|i: int| #![trigger reversed@[i]] 0 <= i < reversed@.len() ==> reversed@[i] == all[all.len() - 1 - i],
        decreases rest.len(),
    {
        let ghost n = rest@.len();
        let vn = rest.pop().unwrap();
        assert(rest@ =~= all.take(n - 1));
        reversed.push(vn);
    }
    let ghost f = vn_kept(id);
    let ghost mut seen: int = 0;
    while reversed.len() > 0
        invariant
            0 <= seen <= all.len(),
            reversed@.len() + seen == all.len(),
            forall|i: int| #![trigger reversed@[i]] 0 <= i < reversed@.len() ==> reversed@[i] == all[all.len() - 1 - i],
            out@ == all.take(seen).filter(f),
            f == vn_kept(id),
        decreases reversed.len(),
    {
        let ghost old_reversed = reversed@;
        let vn = reversed.pop().unwrap();
        assert(vn == all[seen]);
        assert(forall|i: int| 0 <= i < reversed@.len() ==> reversed@[i] == old_reversed[i]);
        assert(all.take(seen + 1) =~= all.take(seen).push(all[seen]));
        proof {
            lemma_filter_push(all.take(seen), f, all[seen]);
            assert(f(all[seen]) == (all[seen].id != id));
        }
        if vn.id != id {
            out.push(vn);
        }
        proof { seen = seen + 1; }
    }
    assert(all.take(all.len() as int) =~= all);
    out
}

} // verus!
