use vstd::prelude::*;

use crate::models::{AppSettings, VisualNovel};

verus! {

/// The Discord application that shows the activity.
pub const DISCORD_APP_ID: &'static str = "1512156673358172312";

/// The name under which the activity is shown.
pub const DISCORD_ACTIVITY_NAME: &'static str = "Kakera";

/// What Discord Rich Presence shows while a visual novel is read.
#[derive(Debug, PartialEq)]
pub struct PresenceActivity {
    /// The first line: which visual novel is played.
    pub details: String,
    /// The second line: the status text or the active route.
    pub state: String,
    /// The text shown over the large image: the title.
    pub large_text: String,
    /// The large image, if there is one to show.
    pub large_image: Option<String>,
}

/// The status line: the active route when routes are shown and one is active, else the
/// configured status text.
pub open spec fn status_text(vn: VisualNovel, settings: AppSettings) -> Seq<char> {
    if settings.discord_show_active_route && vn.active_route is Some {
        "Reading the "@ + vn.active_route->Some_0@ + " route."@
    } else {
        settings.discord_status_text@
    }
}

/// The large image: the custom cover URL when one is set, else the visual novel's cover URL.
pub open spec fn cover_image(vn: VisualNovel, settings: AppSettings) -> Option<Seq<char>> {
    if settings.discord_custom_cover_url@.len() > 0 {
        Some(settings.discord_custom_cover_url@)
    } else {
        match vn.cover_url {
            Some(u) => Some(u@),
            None => None,
        }
    }
}

/// The activity shown for a visual novel that has just been started.
pub fn presence_activity(vn: &VisualNovel, settings: &AppSettings) -> (r: PresenceActivity)
    ensures
        r.details@ == "Playing "@ + vn.title@,
        r.state@ == status_text(*vn, *settings),
        r.large_text@ == vn.title@,
        match r.large_image {
            Some(u) => cover_image(*vn, *settings) == Some(u@),
            None => cover_image(*vn, *settings) is None,
        },
{
    let state = match (&vn.active_route, settings.discord_show_active_route) {
        (Some(route_name), true) => {
            let mut text = "Reading the ".to_owned();
            text.append(route_name.as_str());
            text.append(" route.");
            text
        },
        _ => settings.discord_status_text.clone(),
    };
    let large_image = if !settings.discord_custom_cover_url.as_str().is_empty() {
        Some(settings.discord_custom_cover_url.clone())
    } else {
        match &vn.cover_url {
            Some(u) => Some(u.clone()),
            None => None,
        }
    };
    let mut details = "Playing ".to_owned();
    details.append(vn.title.as_str());
    PresenceActivity { details, state, large_text: vn.title.clone(), large_image }
}

} // verus!
