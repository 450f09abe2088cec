use vstd::prelude::*;

verus! {

/// How a visual novel is started.
#[derive(Debug, Clone, Copy, PartialEq, Eq, Structural)]
pub enum LaunchMode {
    Native,
    Wine,
    Proton,
    Steam,
}

impl Default for LaunchMode {
    fn default() -> (r: Self)
        ensures
            r == LaunchMode::Native,
    {
        LaunchMode::Native
    }
}

/// A visual novel stored in the library.
#[derive(Debug, Clone, PartialEq)]
pub struct VisualNovel {
    pub id: u64,
    pub title: String,
    pub cover_url: Option<String>,
    pub description: Option<String>,
    pub is_favourite: bool,
    pub tags: Vec<String>,
    pub cover_path: Option<String>,
    pub executable_path: Option<String>,
    pub launch_mode: LaunchMode,
    pub steam_app_id: Option<u32>,
    pub wine_binary: Option<String>,
    pub wine_prefix: Option<String>,
    pub wine_locale: Option<String>,
    pub proton_path: Option<String>,
    pub umu_game_id: String,
    pub launch_arguments: String,
    pub launch_environment: String,
    pub save_sync: SaveSyncConfig,
    pub notes: String,
    pub routes: Vec<StoryRoute>,
    pub active_route: Option<String>,
    pub play_sessions: Vec<PlaySession>,
}

/// The UMU game id used when a visual novel names none.
pub fn default_umu_game_id() -> (r: String)
    ensures
        r@ == "umu-default"@,
{
    "umu-default".to_owned()
}

/// A route of a visual novel's story.
#[derive(Debug, PartialEq)]
pub struct StoryRoute {
    pub name: String,
    pub completed: bool,
    pub notes: Option<String>,
}

impl Clone for StoryRoute {
    fn clone(&self) -> (r: Self)
        ensures
            r == *self,
    {
        let notes = match &self.notes {
            Some(n) => Some(n.clone()),
            None => None,
        };
        StoryRoute { name: self.name.clone(), completed: self.completed, notes }
    }
}

/// One measured reading session.
#[derive(Debug, PartialEq)]
pub struct PlaySession {
    pub vn_id: u64,
    pub started_at: String,
    pub duration_seconds: u64,
    pub notes: Option<String>,
}

impl Clone for PlaySession {
    fn clone(&self) -> (r: Self)
        ensures
            r == *self,
    {
        let notes = match &self.notes {
            Some(n) => Some(n.clone()),
            None => None,
        };
        PlaySession { vn_id: self.vn_id, started_at: self.started_at.clone(), duration_seconds: self.duration_seconds, notes }
    }
}

/// Where a visual novel keeps its save data.
#[derive(Debug, PartialEq)]
pub struct SaveLocation {
    pub id: String,
    pub path: String,
    pub label: String,
}

impl Clone for SaveLocation {
    fn clone(&self) -> (r: Self)
        ensures
            r == *self,
    {
        SaveLocation { id: self.id.clone(), path: self.path.clone(), label: self.label.clone() }
    }
}

/// Save snapshot settings of one visual novel.
#[derive(Debug, Clone, PartialEq)]
pub struct SaveSyncConfig {
    pub enabled: bool,
    pub locations: Vec<SaveLocation>,
    pub snapshot_before_launch: bool,
    pub snapshot_after_exit: bool,
    pub backup_before_restore: bool,
}

impl Default for SaveSyncConfig {
    fn default() -> (r: Self)
        ensures
            !r.enabled,
            r.locations@.len() == 0,
            r.snapshot_before_launch,
            r.snapshot_after_exit,
            r.backup_before_restore,
    {
        SaveSyncConfig {
            enabled: false,
            locations: Vec::new(),
            snapshot_before_launch: true,
            snapshot_after_exit: true,
            backup_before_restore: true,
        }
    }
}

/// How urgent a notification is.
#[derive(Debug, Clone, Copy, PartialEq, Eq, Structural)]
pub enum NotificationLevel {
    Info,
    Warning,
    Error,
}

#[derive(Debug, Clone, PartialEq)]
pub struct AppNotification {
    pub level: NotificationLevel,
    pub message: String,
}

/// The order in which the library lists visual novels.
#[derive(Debug, Clone, Copy, PartialEq, Eq, Structural)]
pub enum LibrarySortMode {
    Added,
    TitleAsc,
    TitleDesc,
    LastPlayed,
    MostPlaytime,
}

impl Default for LibrarySortMode {
    fn default() -> (r: Self)
        ensures
            r == LibrarySortMode::Added,
    {
        LibrarySortMode::Added
    }
}

/// Which visual novels the library lists.
#[derive(Debug, Clone, Copy, PartialEq, Eq, Structural)]
pub enum LibraryFilterMode {
    All,
    Favourites,
}

impl Default for LibraryFilterMode {
    fn default() -> (r: Self)
        ensures
            r == LibraryFilterMode::All,
    {
        LibraryFilterMode::All
    }
}

/// Settings chosen in the settings panel.
#[derive(Debug, Clone, PartialEq)]
pub struct AppSettings {
    pub discord_rich_presence_enabled: bool,
    pub discord_status_text: String,
    pub discord_show_active_route: bool,
    pub discord_custom_cover_url: String,
    pub library_sort_mode: LibrarySortMode,
    pub library_filter_mode: LibraryFilterMode,
}

/// The Discord status shown when no route is shown.
pub fn default_discord_status_text() -> (r: String)
    ensures
        r@ == "Reading"@,
{
    "Reading".to_owned()
}

impl Default for AppSettings {
    fn default() -> (r: Self)
        ensures
            r.discord_rich_presence_enabled,
            r.discord_status_text@ == "Reading"@,
            r.discord_show_active_route,
            r.discord_custom_cover_url@.len() == 0,
            r.library_sort_mode == LibrarySortMode::Added,
            r.library_filter_mode == LibraryFilterMode::All,
    {
        AppSettings {
            discord_rich_presence_enabled: true,
            discord_status_text: default_discord_status_text(),
            discord_show_active_route: true,
            discord_custom_cover_url: String::new(),
            library_sort_mode: LibrarySortMode::default(),
            library_filter_mode: LibraryFilterMode::default(),
        }
    }
}

} // verus!
