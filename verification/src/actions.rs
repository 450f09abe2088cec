use vstd::prelude::*;

use crate::edits::{first_with_id, optional_text, text_view};
use crate::launcher::{launch_environment, pair_views, parse_launch_environment, LaunchRequest};
use crate::library::{max_id, next_vn_id, parse_tags, string_views, tags_from};
use crate::models::{
    default_umu_game_id, AppNotification, LaunchMode, NotificationLevel, SaveSyncConfig, VisualNovel,
};
use crate::paths::split;
use crate::text::{chars_of, decimal, push_decimal, string_of, trim_chars, trimmed};

verus! {

/// A notification as plain values.
pub open spec fn notice(n: AppNotification) -> (NotificationLevel, Seq<char>) {
    (n.level, n.message@)
}

fn notification(level: NotificationLevel, text: &str) -> (r: AppNotification)
    ensures
        notice(r) == (level, text@),
{
    AppNotification { level, message: text.to_owned() }
}

fn notification_detail(level: NotificationLevel, text: &str, detail: &str) -> (r: AppNotification)
    ensures
        notice(r) == (level, text@ + detail@),
{
    let mut message = text.to_owned();
    message.append(detail);
    AppNotification { level, message }
}

fn notification_with(level: NotificationLevel, text: &str, detail: &str, end: &str) -> (r: AppNotification)
    ensures
        notice(r) == (level, text@ + detail@ + end@),
{
    let mut message = text.to_owned();
    message.append(detail);
    message.append(end);
    AppNotification { level, message }
}

/// The warning shown at start when Proton launches cannot work: on Linux, when UMU
/// Launcher is missing.
pub fn startup_notification(linux: bool, umu_available: bool) -> (r: Option<AppNotification>)
    ensures
        match r {
            Some(n) => linux && !umu_available && notice(n) == (NotificationLevel::Warning,
                "UMU Launcher was not found. Proton launches will not work until UMU is installed."@),
            None => !(linux && !umu_available),
        },
{
    if linux && !umu_available {
        Some(notification(NotificationLevel::Warning, "UMU Launcher was not found. Proton launches will not work until UMU is installed."))
    } else {
        None
    }
}

/// The launch settings of a visual novel, for starting `executable_path` with its parsed
/// environment; the working directory is left for the caller, who knows the platform's paths.
pub open spec fn request_for(vn: VisualNovel, executable_path: Seq<char>, r: LaunchRequest) -> bool {
    &&& r.executable_path@ == executable_path
    &&& r.launch_mode == vn.launch_mode
    &&& r.steam_app_id == vn.steam_app_id
    &&& r.wine_binary == vn.wine_binary
    &&& r.wine_prefix == vn.wine_prefix
    &&& r.wine_locale == vn.wine_locale
    &&& r.proton_path == vn.proton_path
    &&& r.umu_game_id == vn.umu_game_id
    &&& r.launch_arguments == vn.launch_arguments
    &&& launch_environment(vn.launch_environment@) == Ok::<Seq<(Seq<char>, Seq<char>)>, Seq<char>>(pair_views(r.launch_environment@))
    &&& r.working_directory is None
}

fn clone_text(o: &Option<String>) -> (r: Option<String>)
    ensures
        r == *o,
{
    match o {
        Some(s) => Some(s.clone()),
        None => None,
    }
}

fn request_from(vn: &VisualNovel, executable_path: String, environment: Vec<(String, String)>) -> (r: LaunchRequest)
    requires
        launch_environment(vn.launch_environment@) == Ok::<Seq<(Seq<char>, Seq<char>)>, Seq<char>>(pair_views(environment@)),
    ensures
        request_for(*vn, executable_path@, r),
{
    LaunchRequest {
        executable_path,
        launch_mode: vn.launch_mode,
        steam_app_id: vn.steam_app_id,
        wine_binary: clone_text(&vn.wine_binary),
        wine_prefix: clone_text(&vn.wine_prefix),
        wine_locale: clone_text(&vn.wine_locale),
        proton_path: clone_text(&vn.proton_path),
        umu_game_id: vn.umu_game_id.clone(),
        launch_arguments: vn.launch_arguments.clone(),
        launch_environment: environment,
        working_directory: None,
    }
}

fn find_first(vns: &Vec<VisualNovel>, id: u64) -> (r: Option<usize>)
    ensures
        match r {
            Some(i) => first_with_id(vns@, id) == Some(i as int) && i < vns@.len(),
            None => first_with_id(vns@, id) is None,
        },
{
    let mut i: usize = 0;
    assert(vns@.skip(0) =~= vns@);
    while i < vns.len()
        invariant
            i <= vns.len(),
            forall|k: int| 0 <= k < i ==> vns@[k].id != id,
            first_with_id(vns@, id) == match first_with_id(vns@.skip(i as int), id) {
                Some(k) => Some(k + i),
                None => None::<int>,
            },
        decreases vns.len() - i,
    {
        assert(vns@.skip(i as int)[0] == vns@[i as int]);
        assert(vns@.skip(i as int).drop_first() =~= vns@.skip(i + 1));
        if vns[i].id == id {
            return Some(i);
        }
        i = i + 1;
    }
    assert(vns@.skip(i as int) =~= Seq::<VisualNovel>::empty());
    None
}

/// What happens when a visual novel is launched, before its process starts: the
/// notification shown when it cannot be, else its launch request.
pub open spec fn launch_outcome(vns: Seq<VisualNovel>, id: u64, umu_available: bool) -> Result<(), (NotificationLevel, Seq<char>)> {
    match first_with_id(vns, id) {
        None => Err((NotificationLevel::Error, "Could not find VN with id "@ + decimal(id as nat) + "."@)),
        Some(k) => {
            let vn = vns[k];
            if vn.executable_path is None {
                Err((NotificationLevel::Warning, "No executable path saved for this VN."@))
            } else if vn.launch_mode == LaunchMode::Proton && !umu_available {
                Err((NotificationLevel::Error, "Could not launch VN: UMU Launcher was not found. Install umu-launcher to run games with Proton."@))
            } else {
                match launch_environment(vn.launch_environment@) {
                    Err(e) => Err((NotificationLevel::Error, "Could not launch VN: "@ + e)),
                    Ok(_) => Ok(()),
                }
            }
        },
    }
}

/// Prepares the launch of the visual novel `id`.
pub fn prepare_launch(vns: &Vec<VisualNovel>, id: u64, umu_available: bool) -> (r: Result<LaunchRequest, AppNotification>)
    ensures
        match r {
            Ok(req) => launch_outcome(vns@, id, umu_available) is Ok && (first_with_id(vns@, id) matches Some(k)
                && (vns@[k].executable_path matches Some(p) && request_for(vns@[k], p@, req))),
            Err(n) => launch_outcome(vns@, id, umu_available) == Err::<(), (NotificationLevel, Seq<char>)>(notice(n)),
        },
{
    let k = match find_first(vns, id) {
        Some(k) => k,
        None => {
            let mut message = "Could not find VN with id ".to_owned();
            push_decimal(&mut message, id);
            message.append(".");
            return Err(AppNotification { level: NotificationLevel::Error, message });
        },
    };
    let vn = &vns[k];
    let path = match &vn.executable_path {
        Some(p) => p.clone(),
        None => return Err(notification(NotificationLevel::Warning, "No executable path saved for this VN.")),
    };
    if vn.launch_mode == LaunchMode::Proton && !umu_available {
        return Err(notification(NotificationLevel::Error, "Could not launch VN: UMU Launcher was not found. Install umu-launcher to run games with Proton."));
    }
    match parse_launch_environment(vn.launch_environment.clone()) {
        Err(e) => Err(notification_detail(NotificationLevel::Error, "Could not launch VN: ", e.as_str())),
        Ok(environment) => Ok(request_from(vn, path, environment)),
    }
}

/// What happens when a tool is run in a visual novel's environment, before its process
/// starts.
pub open spec fn tool_outcome(vns: Seq<VisualNovel>, id: u64, umu_available: bool) -> Result<(), (NotificationLevel, Seq<char>)> {
    match first_with_id(vns, id) {
        None => Err((NotificationLevel::Error, "Could not run exe: VN was not found."@)),
        Some(k) => {
            let vn = vns[k];
            if vn.launch_mode == LaunchMode::Proton && !umu_available {
                Err((NotificationLevel::Error, "Could not run tool: UMU Launcher was not found. Install umu-launcher to run tools with Proton."@))
            } else {
                match launch_environment(vn.launch_environment@) {
                    Err(e) => Err((NotificationLevel::Error, "Could not run tool: "@ + e)),
                    Ok(_) => Ok(()),
                }
            }
        },
    }
}

/// Prepares running the executable `tool_path` with the launch settings of the visual
/// novel `id`.
pub fn prepare_tool(vns: &Vec<VisualNovel>, id: u64, tool_path: String, umu_available: bool) -> (r: Result<LaunchRequest, AppNotification>)
    ensures
        match r {
            Ok(req) => tool_outcome(vns@, id, umu_available) is Ok && (first_with_id(vns@, id) matches Some(k)
                && request_for(vns@[k], tool_path@, req)),
            Err(n) => tool_outcome(vns@, id, umu_available) == Err::<(), (NotificationLevel, Seq<char>)>(notice(n)),
        },
{
    let k = match find_first(vns, id) {
        Some(k) => k,
        None => return Err(notification(NotificationLevel::Error, "Could not run exe: VN was not found.")),
    };
    let vn = &vns[k];
    if vn.launch_mode == LaunchMode::Proton && !umu_available {
        return Err(notification(NotificationLevel::Error, "Could not run tool: UMU Launcher was not found. Install umu-launcher to run tools with Proton."));
    }
    match parse_launch_environment(vn.launch_environment.clone()) {
        Err(e) => Err(notification_detail(NotificationLevel::Error, "Could not run tool: ", e.as_str())),
        Ok(environment) => Ok(request_from(vn, tool_path, environment)),
    }
}

/// The title under which a tool's log is kept.
pub fn tool_log_title(title: &str) -> (r: String)
    ensures
        r@ == title@ + " tool"@,
{
    let mut t = title.to_owned();
    t.append(" tool");
    t
}

/// The notification shown once a visual novel was started.
pub fn launched_notification(title: &str) -> (r: AppNotification)
    ensures
        notice(r) == (NotificationLevel::Info, "Launched "@ + title@ + "."@),
{
    notification_with(NotificationLevel::Info, "Launched ", title, ".")
}

/// The notification shown once a tool was started.
pub fn tool_started_notification(title: &str) -> (r: AppNotification)
    ensures
        notice(r) == (NotificationLevel::Info, "Started tool for "@ + title@ + "."@),
{
    notification_with(NotificationLevel::Info, "Started tool for ", title, ".")
}

/// The notification shown when a visual novel could not be started.
pub fn launch_failed_notification(error: &str) -> (r: AppNotification)
    ensures
        notice(r) == (NotificationLevel::Error, "Could not launch VN: "@ + error@),
{
    notification_detail(NotificationLevel::Error, "Could not launch VN: ", error)
}

/// The notification shown when a tool could not be started.
pub fn tool_failed_notification(error: &str) -> (r: AppNotification)
    ensures
        notice(r) == (NotificationLevel::Error, "Could not run tool: "@ + error@),
{
    notification_detail(NotificationLevel::Error, "Could not run tool: ", error)
}

/// The warning shown when the log of a launch could not be created.
pub fn launch_log_failed_notification(error: &str) -> (r: AppNotification)
    ensures
        notice(r) == (NotificationLevel::Warning, "Could not create launch log: "@ + error@),
{
    notification_detail(NotificationLevel::Warning, "Could not create launch log: ", error)
}

/// The warning shown when the log of a tool could not be created.
pub fn tool_log_failed_notification(error: &str) -> (r: AppNotification)
    ensures
        notice(r) == (NotificationLevel::Warning, "Could not create tool log: "@ + error@),
{
    notification_detail(NotificationLevel::Warning, "Could not create tool log: ", error)
}

/// The cover URL from which the cover of visual novel `id` is refreshed, or the
/// notification shown when there is none.
pub fn cover_refresh_source(vns: &Vec<VisualNovel>, id: u64) -> (r: Result<String, AppNotification>)
    ensures
        match first_with_id(vns@, id) {
            None => r matches Err(n) && notice(n) == (NotificationLevel::Error, "Could not refresh cover: VN was not found."@),
            Some(k) => match vns@[k].cover_url {
                None => r matches Err(n) && notice(n) == (NotificationLevel::Warning, "This VN does not have a VNDB cover URL saved."@),
                Some(u) => r == Ok::<String, AppNotification>(u),
            },
        },
{
    let k = match find_first(vns, id) {
        Some(k) => k,
        None => return Err(notification(NotificationLevel::Error, "Could not refresh cover: VN was not found.")),
    };
    match &vns[k].cover_url {
        Some(u) => Ok(u.clone()),
        None => Err(notification(NotificationLevel::Warning, "This VN does not have a VNDB cover URL saved.")),
    }
}

/// The notification shown after a cover refresh: success, or the failure's text.
pub fn cover_refresh_notification(failure: Option<String>) -> (r: AppNotification)
    ensures
        match failure {
            None => notice(r) == (NotificationLevel::Info, "Cover refreshed from VNDB"@),
            Some(e) => notice(r) == (NotificationLevel::Error, "Could not refresh cover: "@ + e@),
        },
{
    match failure {
        None => notification(NotificationLevel::Info, "Cover refreshed from VNDB"),
        Some(e) => notification_detail(NotificationLevel::Error, "Could not refresh cover: ", e.as_str()),
    }
}

/// A visual novel as the add form describes it.
#[derive(Debug, PartialEq)]
pub struct NewVN {
    pub title: String,
    pub cover_url: Option<String>,
    pub cover_path: Option<String>,
    pub description: Option<String>,
    pub tags: Vec<String>,
}

/// Reads the add form: the title is required (without surrounding white space), an empty
/// description means none, and tags are comma separated.
pub fn new_vn_from_form(title: &str, description: String, tags_text: String, cover_path: Option<String>, cover_url: Option<String>) -> (r: Result<NewVN, String>)
    ensures
        trimmed(title@).len() == 0 ==> (r matches Err(m) && m@ == "A title is required"@),
        trimmed(title@).len() > 0 ==> (r matches Ok(n) && n.title@ == trimmed(title@) && text_view(n.description) == optional_text(description@)
            && string_views(n.tags@) == tags_from(split(tags_text@, ',')) && n.cover_path == cover_path && n.cover_url == cover_url),
{
    let typed_title = trim_chars(&chars_of(title));
    if typed_title.len() == 0 {
        return Err("A title is required".to_owned());
    }
    let description = if description.as_str().is_empty() { None } else { Some(description) };
    Ok(NewVN { title: string_of(&typed_title), cover_url, cover_path, description, tags: parse_tags(tags_text) })
}

/// The visual novel added to the library from the add form: the next free ID, no launch
/// settings yet and nothing played.
pub fn visual_novel_from(vns: &Vec<VisualNovel>, new_vn: NewVN) -> (r: VisualNovel)
    requires
        max_id(vns@) < u64::MAX,
    ensures
        r.id == max_id(vns@) + 1,
        r.title == new_vn.title,
        r.cover_url == new_vn.cover_url,
        r.description == new_vn.description,
        r.tags == new_vn.tags,
        r.cover_path == new_vn.cover_path,
        !r.is_favourite,
        r.executable_path is None,
        r.launch_mode == LaunchMode::Native,
        r.steam_app_id is None,
        r.wine_binary is None && r.wine_prefix is None && r.wine_locale is None && r.proton_path is None,
        r.umu_game_id@ == "umu-default"@,
        r.launch_arguments@.len() == 0,
        r.launch_environment@.len() == 0,
        !r.save_sync.enabled && r.save_sync.locations@.len() == 0,
        r.notes@.len() == 0,
        r.routes@.len() == 0,
        r.active_route is None,
        r.play_sessions@.len() == 0,
{
    VisualNovel {
        id: next_vn_id(vns),
        title: new_vn.title,
        cover_url: new_vn.cover_url,
        description: new_vn.description,
        is_favourite: false,
        tags: new_vn.tags,
        cover_path: new_vn.cover_path,
        executable_path: None,
        launch_mode: LaunchMode::default(),
        steam_app_id: None,
        wine_binary: None,
        wine_prefix: None,
        wine_locale: None,
        proton_path: None,
        umu_game_id: default_umu_game_id(),
        launch_arguments: String::new(),
        launch_environment: String::new(),
        save_sync: SaveSyncConfig::default(),
        notes: String::new(),
        routes: Vec::new(),
        active_route: None,
        play_sessions: Vec::new(),
    }
}

} // verus!
