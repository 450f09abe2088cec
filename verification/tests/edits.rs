use kakera::actions::{
    cover_refresh_notification, cover_refresh_source, launch_failed_notification, launched_notification,
    new_vn_from_form, prepare_launch, prepare_tool, startup_notification, tool_failed_notification, tool_log_failed_notification,
    tool_log_title, tool_started_notification, visual_novel_from, launch_log_failed_notification, NewVN,
};
use kakera::edits::{apply_edit, check_edit, delete_vn, edit_library, VnEdit};
use kakera::models::{
    default_umu_game_id, LaunchMode, NotificationLevel, SaveSyncConfig, StoryRoute, VisualNovel,
};
use kakera::time::format_started_at;

fn vn(id: u64, title: &str) -> VisualNovel {
    VisualNovel {
        id,
        title: title.to_string(),
        cover_url: None,
        description: None,
        is_favourite: false,
        tags: Vec::new(),
        cover_path: None,
        executable_path: None,
        launch_mode: LaunchMode::default(),
        steam_app_id: None,
        wine_binary: None,
        wine_prefix: None,
        wine_locale: None,
        proton_path: None,
        umu_game_id: default_umu_game_id(),
        launch_arguments: String::new(),
        launch_environment: String::new(),
        save_sync: SaveSyncConfig::default(),
        notes: String::new(),
        routes: Vec::new(),
        active_route: None,
        play_sessions: Vec::new(),
    }
}

fn route(name: &str, completed: bool) -> StoryRoute {
    StoryRoute { name: name.to_string(), completed, notes: None }
}

#[test]
fn text_fields_are_trimmed_or_cleared() {
    let novel = apply_edit(vn(1, "a"), VnEdit::ExecutablePath("  /games/a.exe \n".to_string()));
    assert_eq!(novel.executable_path, Some("/games/a.exe".to_string()));

    let cleared = apply_edit(novel, VnEdit::ExecutablePath("   ".to_string()));
    assert_eq!(cleared.executable_path, None);

    let binary = apply_edit(cleared, VnEdit::WineBinary(String::new()));
    assert_eq!(binary.wine_binary, None);

    let game = apply_edit(binary, VnEdit::UmuGameId("  ".to_string()));
    assert_eq!(game.umu_game_id, "umu-default");
    let game = apply_edit(game, VnEdit::UmuGameId("umu-1234".to_string()));
    assert_eq!(game.umu_game_id, "umu-1234");

    let described = apply_edit(game, VnEdit::Description(String::new()));
    assert_eq!(described.description, None);
}

#[test]
fn routes_are_added_toggled_and_deleted() {
    let mut novel = vn(1, "a");
    novel = apply_edit(novel, VnEdit::AddRoute("Kanae".to_string()));
    novel = apply_edit(novel, VnEdit::AddRoute("Ichijou".to_string()));
    novel = apply_edit(novel, VnEdit::ToggleRoute("Ichijou".to_string()));
    assert_eq!(novel.routes, vec![route("Kanae", false), route("Ichijou", true)]);

    novel = apply_edit(novel, VnEdit::ActiveRoute(Some("Kanae".to_string())));
    novel = apply_edit(novel, VnEdit::DeleteRoute("Kanae".to_string()));
    assert_eq!(novel.routes, vec![route("Ichijou", true)]);
    assert_eq!(novel.active_route, None);
}

#[test]
fn toggling_a_route_twice_restores_it() {
    let mut novel = vn(1, "a");
    novel.routes = vec![route("Kanae", true), route("Ichijou", false), route("Ichijou", true)];
    let once = apply_edit(novel.clone(), VnEdit::ToggleRoute("Ichijou".to_string()));
    assert_eq!(once.routes, vec![route("Kanae", true), route("Ichijou", true), route("Ichijou", true)]);
    let twice = apply_edit(once, VnEdit::ToggleRoute("Ichijou".to_string()));
    assert_eq!(twice, novel);
}

#[test]
fn portal_paths_are_refused() {
    let refusal = check_edit(&VnEdit::WinePrefix(" /run/flatpak/doc/1a2b/prefix ".to_string())).unwrap_err();
    assert_eq!(refusal.level, NotificationLevel::Error);
    assert!(refusal.message.starts_with("The Wine prefix has been selected through Flatpak's temporary document portal."));
    assert!(check_edit(&VnEdit::CoverPath("/home/me/cover.png".to_string())).is_ok());
}

#[test]
fn only_the_first_matching_visual_novel_is_edited() {
    let library = vec![vn(1, "a"), vn(2, "b"), vn(2, "c")];
    let edited = edit_library(library, 2, VnEdit::ToggleFavourite).unwrap();

    assert!(!edited[0].is_favourite);
    assert!(edited[1].is_favourite);
    assert!(!edited[2].is_favourite);

    let untouched = edit_library(vec![vn(1, "a")], 9, VnEdit::Notes("x".to_string())).unwrap();
    assert_eq!(untouched, vec![vn(1, "a")]);

    let refused = edit_library(vec![vn(1, "a")], 1, VnEdit::ExecutablePath("/run/flatpak/doc/x/game.exe".to_string()));
    assert!(refused.is_err());
}

#[test]
fn deleting_removes_every_visual_novel_with_the_id() {
    let remaining = delete_vn(vec![vn(1, "a"), vn(2, "b"), vn(1, "c")], 1);
    assert_eq!(remaining, vec![vn(2, "b")]);
}

#[test]
fn launches_are_prepared_from_the_saved_settings() {
    let mut game = vn(3, "Game");
    game.executable_path = Some("/games/game.exe".to_string());
    game.launch_mode = LaunchMode::Proton;
    game.launch_environment = "DXVK_HUD=fps".to_string();
    let library = vec![vn(1, "a"), game];

    let request = prepare_launch(&library, 3, true).unwrap();
    assert_eq!(request.executable_path, "/games/game.exe");
    assert_eq!(request.launch_environment, vec![("DXVK_HUD".to_string(), "fps".to_string())]);
    assert_eq!(request.working_directory, None);

    let no_umu = prepare_launch(&library, 3, false).unwrap_err();
    assert_eq!(no_umu.message, "Could not launch VN: UMU Launcher was not found. Install umu-launcher to run games with Proton.");

    let missing = prepare_launch(&library, 7, true).unwrap_err();
    assert_eq!(missing.level, NotificationLevel::Error);
    assert_eq!(missing.message, "Could not find VN with id 7.");

    let no_exe = prepare_launch(&library, 1, true).unwrap_err();
    assert_eq!(no_exe.level, NotificationLevel::Warning);
    assert_eq!(no_exe.message, "No executable path saved for this VN.");

    let mut broken = vn(4, "Broken");
    broken.executable_path = Some("/g.exe".to_string());
    broken.launch_environment = "no equals sign".to_string();
    let bad_env = prepare_launch(&vec![broken], 4, true).unwrap_err();
    assert_eq!(bad_env.message, "Could not launch VN: Line 1 must be KEY=value");
}

#[test]
fn tools_run_with_the_visual_novel_settings() {
    let mut game = vn(3, "Game");
    game.launch_mode = LaunchMode::Wine;
    let request = prepare_tool(&vec![game], 3, "/tools/t.exe".to_string(), false).unwrap();
    assert_eq!(request.executable_path, "/tools/t.exe");
    assert_eq!(request.launch_mode, LaunchMode::Wine);
    assert_eq!(prepare_tool(&Vec::new(), 3, "/t".to_string(), true).unwrap_err().message, "Could not run exe: VN was not found.");
    assert_eq!(tool_log_title("Game"), "Game tool");
}

#[test]
fn notifications_say_what_happened() {
    assert_eq!(launched_notification("Game").message, "Launched Game.");
    assert_eq!(launch_failed_notification("boom").message, "Could not launch VN: boom");
    assert_eq!(tool_started_notification("Game").message, "Started tool for Game.");
    let failed = tool_failed_notification("boom");
    assert_eq!((failed.level, failed.message), (NotificationLevel::Error, "Could not run tool: boom".to_string()));
    let no_log = tool_log_failed_notification("disk full");
    assert_eq!((no_log.level, no_log.message), (NotificationLevel::Warning, "Could not create tool log: disk full".to_string()));
    assert_eq!(launch_log_failed_notification("disk full").message, "Could not create launch log: disk full");
    assert_eq!(startup_notification(true, false).unwrap().level, NotificationLevel::Warning);
    assert!(startup_notification(false, false).is_none());
    assert!(startup_notification(true, true).is_none());
    assert_eq!(cover_refresh_notification(None).message, "Cover refreshed from VNDB");
    assert_eq!(cover_refresh_notification(Some("timeout".to_string())).message, "Could not refresh cover: timeout");
}

#[test]
fn covers_refresh_from_the_saved_url() {
    let mut game = vn(1, "a");
    assert_eq!(cover_refresh_source(&vec![game.clone()], 1).unwrap_err().message, "This VN does not have a VNDB cover URL saved.");
    game.cover_url = Some("https://t.vndb.org/cv/1.jpg".to_string());
    assert_eq!(cover_refresh_source(&vec![game], 1).unwrap(), "https://t.vndb.org/cv/1.jpg");
    assert_eq!(cover_refresh_source(&Vec::new(), 1).unwrap_err().message, "Could not refresh cover: VN was not found.");
}

#[test]
fn the_add_form_needs_a_title() {
    assert_eq!(
        new_vn_from_form("   ", String::new(), String::new(), None, None),
        Err("A title is required".to_string())
    );
    let new_vn = new_vn_from_form(" Muramasa ", String::new(), "nukige, chuuni".to_string(), None, None).unwrap();
    assert_eq!(
        new_vn,
        NewVN {
            title: "Muramasa".to_string(),
            cover_url: None,
            cover_path: None,
            description: None,
            tags: vec!["nukige".to_string(), "chuuni".to_string()],
        }
    );
    let added = visual_novel_from(&vec![vn(5, "x")], new_vn);
    assert_eq!(added.id, 6);
    assert_eq!(added.title, "Muramasa");
    assert_eq!(added.umu_game_id, "umu-default");
}

#[test]
fn session_starts_are_shown_in_their_own_time_zone() {
    assert_eq!(format_started_at("2026-01-02T03:04:05+09:00".to_string()), "2026-01-02 03:04:05");
    assert_eq!(format_started_at("2016-12-31T23:59:60Z".to_string()), "2016-12-31 23:59:60");
    assert_eq!(format_started_at("yesterday".to_string()), "yesterday");
}
