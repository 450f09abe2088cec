use kakera::covers::{cover_cache_dir, cover_file_path, cover_source, image_mime_type, local_path_to_data_url};
use kakera::error::{IoErrorKind, IoFailure};
use kakera::launcher::{
    host_command, kakera_data_dir, launch_steam_tool, needs_umu_run, parse_launch_environment, plan_launch,
    split_whitespace, steam_helper_path, steam_launch_option, steam_tool_marker_path, steam_tools_directory, steam_wrapper_path,
    HostContext, LaunchRequest,
    ToolPlan,
};
use kakera::library::{
    available_tags, find_vn, latest_played_at, sort_mode_from_value, sort_mode_value, library_order, next_vn_id, parse_tags, total_playtime_seconds,
};
use kakera::logs::{latest_launch_log_path, launch_logs_dir, new_launch_log_path, safe_filename};
use kakera::markup::{parse_description, DescriptionPart};
use kakera::models::{
    default_discord_status_text, default_umu_game_id, AppSettings, LaunchMode, LibraryFilterMode, LibrarySortMode,
    PlaySession, SaveSyncConfig, VisualNovel,
};
use kakera::paths::{LocalPath, PathComponent};
use kakera::peer::{
    decode_peer_secret, is_valid_vn_sync_id, load_peer_secret, pairing_code_text, settle_peer_secret,
    PeerConnectionInfo, SecretPersist, SyncPairingInfo,
};
use kakera::presence::presence_activity;
use kakera::storage::{add_play_session_to_library, library_file_path};
use kakera::system::{find_host_command, host_home_dir, host_lookup_command, is_flatpak_document_portal_path, open_folder_command, CommandOutput, HomeLookup};
use kakera::vndb::{fill_from_result, search_outcome_message, search_query, vndb_search_request, VndbImage, VndbSearchResult};

fn path(text: &str) -> LocalPath {
    let mut components = Vec::new();
    if text.starts_with('/') {
        components.push(PathComponent::RootDir);
    }
    for part in text.split('/') {
        match part {
            "" | "." => {}
            ".." => components.push(PathComponent::ParentDir),
            name => components.push(PathComponent::Normal(name.to_string())),
        }
    }
    LocalPath { components }
}

fn vn(id: u64, title: &str) -> VisualNovel {
    VisualNovel {
        id,
        title: title.to_string(),
        cover_url: None,
        description: None,
        is_favourite: false,
        tags: Vec::new(),
        cover_path: None,
        executable_path: None,
        launch_mode: LaunchMode::default(),
        steam_app_id: None,
        wine_binary: None,
        wine_prefix: None,
        wine_locale: None,
        proton_path: None,
        umu_game_id: default_umu_game_id(),
        launch_arguments: String::new(),
        launch_environment: String::new(),
        save_sync: SaveSyncConfig::default(),
        notes: String::new(),
        routes: Vec::new(),
        active_route: None,
        play_sessions: Vec::new(),
    }
}

fn session(vn_id: u64, started_at: &str, duration_seconds: u64) -> PlaySession {
    PlaySession { vn_id, started_at: started_at.to_string(), duration_seconds, notes: None }
}

fn host(flatpak: bool, windows: bool) -> HostContext {
    HostContext { flatpak, windows, display: None }
}

#[test]
fn defaults_match_a_fresh_install() {
    assert_eq!(default_umu_game_id(), "umu-default");
    assert_eq!(default_discord_status_text(), "Reading");
    let settings = AppSettings::default();
    assert!(settings.discord_rich_presence_enabled);
    assert!(settings.discord_show_active_route);
    assert_eq!(settings.library_sort_mode, LibrarySortMode::Added);
    assert_eq!(settings.library_filter_mode, LibraryFilterMode::All);
    let sync = SaveSyncConfig::default();
    assert!(!sync.enabled);
    assert!(sync.locations.is_empty());
    assert!(sync.snapshot_before_launch && sync.snapshot_after_exit && sync.backup_before_restore);
}

#[test]
fn descriptions_are_split_into_formatted_parts() {
    let parts = parse_description("Hi [b]bold[/b] and [url=https://vndb.org]VNDB[/url][spoiler]a [i]secret[/i][/spoiler] [x".to_string());

    assert_eq!(
        parts,
        vec![
            DescriptionPart::Text("Hi ".to_string()),
            DescriptionPart::Bold("bold".to_string()),
            DescriptionPart::Text(" and ".to_string()),
            DescriptionPart::Link { label: "VNDB".to_string(), url: "https://vndb.org".to_string() },
            DescriptionPart::Spoiler(vec![DescriptionPart::Text("a ".to_string()), DescriptionPart::Italic("secret".to_string())]),
            DescriptionPart::Text(" ".to_string()),
            DescriptionPart::Text("[".to_string()),
            DescriptionPart::Text("x".to_string()),
        ]
    );
}

#[test]
fn a_plain_description_is_one_text_part() {
    assert_eq!(parse_description("Just words.".to_string()), vec![DescriptionPart::Text("Just words.".to_string())]);
    assert!(parse_description(String::new()).is_empty());
}

fn render(parts: &[DescriptionPart]) -> String {
    let mut text = String::new();
    for part in parts {
        match part {
            DescriptionPart::Text(t) => text.push_str(t),
            DescriptionPart::Bold(t) => text.push_str(&format!("[b]{t}[/b]")),
            DescriptionPart::Italic(t) => text.push_str(&format!("[i]{t}[/i]")),
            DescriptionPart::Link { label, url } => text.push_str(&format!("[url={url}]{label}[/url]")),
            DescriptionPart::Spoiler(inner) => text.push_str(&format!("[spoiler]{}[/spoiler]", render(inner))),
        }
    }
    text
}

fn texts_are_nonempty(parts: &[DescriptionPart]) -> bool {
    parts.iter().all(|part| match part {
        DescriptionPart::Text(t) => !t.is_empty(),
        DescriptionPart::Spoiler(inner) => texts_are_nonempty(inner),
        _ => true,
    })
}

#[test]
fn parsed_descriptions_keep_every_character() {
    for description in [
        "Hi [b]bold[/b] and [url=https://vndb.org]VNDB[/url][spoiler]a [i]secret[/i][/spoiler] [x",
        "[b]never closed [i]nor this [url=x] [spoiler][spoiler]inner[/spoiler]",
        "[[[]]][/b][b][/b][url=][/url]",
        "日本語の[b]説明[/b]",
    ] {
        let parts = parse_description(description.to_string());
        assert!(parts.len() <= description.chars().count());
        assert!(texts_are_nonempty(&parts));
        assert_eq!(render(&parts), description);
    }
}

#[test]
fn launch_environments_are_read_line_by_line() {
    let environment = parse_launch_environment("# comment\n\n DXVK_HUD = fps \r\nLANG=ja_JP.UTF-8\n".to_string()).unwrap();

    assert_eq!(
        environment,
        vec![("DXVK_HUD".to_string(), "fps".to_string()), ("LANG".to_string(), "ja_JP.UTF-8".to_string())]
    );
    assert_eq!(parse_launch_environment("A=1\nnot a pair".to_string()), Err("Line 2 must be KEY=value".to_string()));
    assert_eq!(parse_launch_environment("=x".to_string()), Err("Line 1 has an empty variable name".to_string()));
    assert_eq!(parse_launch_environment("MY VAR=x".to_string()), Err("Line 1 has whitespace in the variable name".to_string()));
}

#[test]
fn arguments_are_split_on_white_space() {
    assert_eq!(split_whitespace(&"  -windowed\t--lang ja ".to_string()), vec!["-windowed", "--lang", "ja"]);
}

fn request(mode: LaunchMode) -> LaunchRequest {
    LaunchRequest {
        executable_path: "/games/vn/game.exe".to_string(),
        launch_mode: mode,
        steam_app_id: Some(1234),
        wine_binary: None,
        wine_prefix: Some("/prefixes/vn".to_string()),
        wine_locale: Some("ja_JP.UTF-8".to_string()),
        proton_path: None,
        umu_game_id: "umu-default".to_string(),
        launch_arguments: "-windowed".to_string(),
        launch_environment: vec![("DXVK_HUD".to_string(), "fps".to_string())],
        working_directory: Some("/games/vn".to_string()),
    }
}

#[test]
fn wine_launches_pass_the_prefix_and_locale() {
    let plan = plan_launch(&request(LaunchMode::Wine), &host(false, false), None).unwrap();

    assert_eq!(plan.program, "wine");
    assert_eq!(plan.arguments, vec!["/games/vn/game.exe".to_string(), "-windowed".to_string()]);
    assert_eq!(
        plan.environment,
        vec![
            ("DXVK_HUD".to_string(), "fps".to_string()),
            ("WINEPREFIX".to_string(), "/prefixes/vn".to_string()),
            ("LANG".to_string(), "ja_JP.UTF-8".to_string()),
            ("LC_ALL".to_string(), "ja_JP.UTF-8".to_string()),
        ]
    );
    assert_eq!(plan.current_dir, Some("/games/vn".to_string()));
}

#[test]
fn flatpak_launches_go_through_the_host() {
    let plan = plan_launch(&request(LaunchMode::Native), &HostContext { flatpak: true, windows: false, display: Some(":0".to_string()) }, None).unwrap();

    assert_eq!(plan.program, "flatpak-spawn");
    assert_eq!(
        plan.arguments,
        vec!["--host", "--env=DISPLAY=:0", "--directory=/games/vn", "--env=DXVK_HUD=fps", "/games/vn/game.exe"]
    );
    assert!(plan.environment.is_empty());
}

#[test]
fn proton_needs_umu_outside_flatpak() {
    assert!(needs_umu_run(LaunchMode::Proton, &host(false, false)));
    assert!(!needs_umu_run(LaunchMode::Proton, &host(true, false)));
    let error = plan_launch(&request(LaunchMode::Proton), &host(false, false), None).unwrap_err();
    assert_eq!(error.kind, IoErrorKind::NotFound);
    assert_eq!(error.message, "UMU Launcher not found");

    let plan = plan_launch(&request(LaunchMode::Proton), &host(false, false), Some("/usr/bin/umu-run".to_string())).unwrap();
    assert_eq!(plan.program, "/usr/bin/umu-run");
    assert_eq!(plan.environment.last(), Some(&("GAMEID".to_string(), "umu-default".to_string())));
}

#[test]
fn steam_launches_use_the_app_id() {
    let plan = plan_launch(&request(LaunchMode::Steam), &host(false, false), None).unwrap();
    assert_eq!(plan.program, "steam");
    assert_eq!(plan.arguments, vec!["-applaunch", "1234"]);

    let windows = plan_launch(&request(LaunchMode::Steam), &host(false, true), None).unwrap();
    assert_eq!(windows.program, "cmd");
    assert_eq!(windows.arguments, vec!["/C", "start", "", "steam://rungameid/1234"]);

    let mut missing = request(LaunchMode::Steam);
    missing.steam_app_id = None;
    assert_eq!(plan_launch(&missing, &host(false, false), None).unwrap_err().message, "Steam App ID is not configured");
}

#[test]
fn steam_tools_are_queued_for_the_running_wrapper() {
    let kakera = kakera_data_dir(Some(path("/home/me/.local/share"))).unwrap();
    let tools = steam_tools_directory(&kakera);
    assert_eq!(tools, path("/home/me/.local/share/kakera/steam-tools"));
    assert_eq!(steam_tool_marker_path(&tools, 1234), path("/home/me/.local/share/kakera/steam-tools/active-1234"));
    assert_eq!(steam_wrapper_path(&tools), path("/home/me/.local/share/kakera/steam-tools/kakera-steam-wrapper"));
    assert_eq!(steam_helper_path(&tools), path("/home/me/.local/share/kakera/steam-tools/kakera-steam-helper"));

    let queued = launch_steam_tool("/tools/cheat.exe".to_string(), Some("/tools".to_string()), 1234, Vec::new(), &host(false, false), &tools, true).unwrap();
    assert_eq!(
        queued,
        ToolPlan::Queue {
            request_path: path("/home/me/.local/share/kakera/steam-tools/tool-request-1234"),
            contents: "/tools/cheat.exe\n".to_string(),
        }
    );

    let inactive = launch_steam_tool("/tools/cheat.exe".to_string(), None, 1234, Vec::new(), &host(false, false), &tools, false).unwrap_err();
    assert_eq!(inactive.kind, IoErrorKind::NotConnected);
    assert_eq!(inactive.message, "Steam wrapper is not active; launch the game from Steam first");

    let direct = launch_steam_tool("C:\\tools\\cheat.exe".to_string(), Some("C:\\tools".to_string()), 1, Vec::new(), &host(false, true), &tools, false).unwrap();
    assert_eq!(direct, ToolPlan::Process(host_command("C:\\tools\\cheat.exe".to_string(), Vec::new(), Some("C:\\tools".to_string()), &host(false, true))));
    assert_eq!(steam_launch_option("/k/kakera-steam-wrapper"), "/k/kakera-steam-wrapper %command%");
    assert!(kakera_data_dir(None).is_err());
}

#[test]
fn titles_become_safe_file_names() {
    assert_eq!(safe_filename("Fate/stay night: Réalta Nua".to_string()), "Fate_stay-night_-R_alta-Nua");
    assert_eq!(safe_filename(String::new()), "untitled");
    assert_eq!(safe_filename("a".repeat(60)).len(), 48);
}

#[test]
fn launch_logs_live_below_the_data_directory() {
    let logs = launch_logs_dir(Some(path("/data"))).unwrap();
    assert_eq!(logs, path("/data/kakera/logs"));
    assert_eq!(latest_launch_log_path(&logs), path("/data/kakera/logs/latest.log"));
    assert_eq!(
        new_launch_log_path(&logs, "20260101-120000", 7, "My VN".to_string()),
        path("/data/kakera/logs/20260101-120000-vn-7-My-VN.log")
    );
    let missing = launch_logs_dir(None).unwrap_err();
    assert_eq!(missing.kind, IoErrorKind::NotFound);
    assert_eq!(missing.message, "Could not find an app data directory");
}

#[test]
fn the_library_and_covers_live_below_the_data_directory() {
    assert_eq!(library_file_path(Some(path("/data"))).unwrap(), path("/data/kakera/library.json"));
    assert_eq!(library_file_path(None).unwrap_err().message, "could not find an app data directory.");
    let covers = cover_cache_dir(Some(path("/data"))).unwrap();
    assert_eq!(cover_file_path(&covers, 12), path("/data/kakera/covers/12.jpg"));
}

#[test]
fn play_sessions_are_recorded_on_the_matching_visual_novel() {
    let library = vec![vn(1, "One"), vn(2, "Two")];
    let updated = add_play_session_to_library(library, 2, session(2, "2026-01-01T10:00:00Z", 60));

    assert!(updated[0].play_sessions.is_empty());
    assert_eq!(updated[1].play_sessions, vec![session(2, "2026-01-01T10:00:00Z", 60)]);
    assert_eq!(updated[1].title, "Two");
}

#[test]
fn reading_statistics_come_from_the_sessions() {
    let mut novel = vn(1, "One");
    assert_eq!(latest_played_at(&novel), "");
    assert_eq!(total_playtime_seconds(&novel), 0);
    novel.play_sessions = vec![session(1, "2026-01-02T10:00:00Z", 30), session(1, "2026-01-05T10:00:00Z", 90), session(1, "2026-01-03T10:00:00Z", 15)];
    assert_eq!(latest_played_at(&novel), "2026-01-05T10:00:00Z");
    assert_eq!(total_playtime_seconds(&novel), 135);
}

#[test]
fn tags_are_comma_separated() {
    assert_eq!(parse_tags(" romance, ,mystery ,".to_string()), vec!["romance".to_string(), "mystery".to_string()]);
    assert!(parse_tags(String::new()).is_empty());
}

#[test]
fn new_visual_novels_get_the_next_id() {
    assert_eq!(next_vn_id(&Vec::new()), 1);
    assert_eq!(next_vn_id(&vec![vn(4, "a"), vn(9, "b"), vn(2, "c")]), 10);
    assert_eq!(find_vn(&vec![vn(4, "a"), vn(9, "b")], 9), Some(1));
    assert_eq!(find_vn(&vec![vn(4, "a")], 5), None);
}

#[test]
fn a_new_id_is_never_one_in_use() {
    let library = vec![vn(7, "a"), vn(0, "b"), vn(7, "c"), vn(3, "d")];
    let id = next_vn_id(&library);
    assert!(library.iter().all(|novel| novel.id < id));
    assert_eq!(find_vn(&library, id), None);
}

#[test]
fn the_library_view_filters_and_sorts() {
    let mut alpha = vn(1, "alpha");
    alpha.is_favourite = true;
    alpha.tags = vec!["Romance".to_string()];
    alpha.play_sessions = vec![session(1, "2026-01-01", 100)];
    let mut beta = vn(2, "Beta");
    beta.play_sessions = vec![session(2, "2026-02-01", 50)];
    let mut gamma = vn(3, "gamma");
    gamma.is_favourite = true;
    gamma.tags = vec!["romance".to_string()];
    let library = vec![gamma, alpha, beta];

    assert_eq!(library_order(&library, "", LibraryFilterMode::All, &None, LibrarySortMode::Added), vec![0, 1, 2]);
    assert_eq!(library_order(&library, "", LibraryFilterMode::All, &None, LibrarySortMode::TitleAsc), vec![1, 2, 0]);
    assert_eq!(library_order(&library, "", LibraryFilterMode::All, &None, LibrarySortMode::TitleDesc), vec![0, 2, 1]);
    assert_eq!(library_order(&library, "", LibraryFilterMode::All, &None, LibrarySortMode::LastPlayed), vec![2, 1, 0]);
    assert_eq!(library_order(&library, "", LibraryFilterMode::All, &None, LibrarySortMode::MostPlaytime), vec![1, 2, 0]);
    assert_eq!(library_order(&library, "", LibraryFilterMode::Favourites, &None, LibrarySortMode::Added), vec![0, 1]);
    assert_eq!(library_order(&library, "A", LibraryFilterMode::All, &None, LibrarySortMode::Added), vec![0, 1, 2]);
    assert_eq!(library_order(&library, "ALP", LibraryFilterMode::All, &None, LibrarySortMode::Added), vec![1]);
    assert_eq!(library_order(&library, "", LibraryFilterMode::All, &Some("ROMANCE".to_string()), LibrarySortMode::TitleAsc), vec![1, 0]);
}

#[test]
fn the_tag_filter_offers_each_tag_once() {
    let mut first = vn(1, "first");
    first.tags = vec!["romance".to_string(), "Mystery".to_string()];
    let mut second = vn(2, "second");
    second.tags = vec!["Romance".to_string(), "comedy".to_string(), "Émotion".to_string()];
    let third = vn(3, "third");
    assert_eq!(
        available_tags(&vec![first, second, third]),
        vec!["comedy".to_string(), "Mystery".to_string(), "romance".to_string(), "Émotion".to_string()]
    );
    assert!(available_tags(&Vec::new()).is_empty());
}

#[test]
fn cover_images_are_shown_as_data_urls() {
    assert_eq!(image_mime_type("/covers/a.PNG"), "image/png");
    assert_eq!(image_mime_type("/covers/a.webp"), "image/webp");
    assert_eq!(image_mime_type("/covers/a.jpg"), "image/jpeg");
    assert_eq!(local_path_to_data_url("/c/a.png", Some(b"abc".to_vec())), Some("data:image/png;base64,YWJj".to_string()));
    assert_eq!(local_path_to_data_url("/c/a.png", None), None);
    assert_eq!(local_path_to_data_url("/c/a.jpg", Some(b"a".to_vec())), Some("data:image/jpeg;base64,YQ==".to_string()));
    assert_eq!(local_path_to_data_url("/c/a.webp", Some(b"ab".to_vec())), Some("data:image/webp;base64,YWI=".to_string()));
    assert_eq!(
        local_path_to_data_url("/c/a.png", Some(vec![0xfb, 0xff, 0x00, 0x3e])),
        Some("data:image/png;base64,+/8APg==".to_string())
    );

    let mut local = vn(1, "a");
    local.cover_path = Some("/c/a.jpg".to_string());
    local.cover_url = Some("https://example.org/a.jpg".to_string());
    assert_eq!(cover_source(local.clone(), None, false), Some("/c/a.jpg".to_string()));
    assert_eq!(cover_source(local.clone(), None, true), None);
    assert_eq!(cover_source(local, Some(b"hi".to_vec()), true), Some("data:image/jpeg;base64,aGk=".to_string()));

    let mut remote = vn(2, "b");
    remote.cover_url = Some("https://example.org/b.jpg".to_string());
    assert_eq!(cover_source(remote, None, false), Some("https://example.org/b.jpg".to_string()));
}

#[test]
fn rich_presence_shows_the_route_or_the_status() {
    let mut novel = vn(1, "Muramasa");
    novel.cover_url = Some("https://example.org/cover.jpg".to_string());
    novel.active_route = Some("Kanae".to_string());
    let settings = AppSettings::default();
    let activity = presence_activity(&novel, &settings);

    assert_eq!(activity.details, "Playing Muramasa");
    assert_eq!(activity.state, "Reading the Kanae route.");
    assert_eq!(activity.large_text, "Muramasa");
    assert_eq!(activity.large_image, Some("https://example.org/cover.jpg".to_string()));

    let mut quiet = AppSettings::default();
    quiet.discord_show_active_route = false;
    quiet.discord_custom_cover_url = "https://example.org/custom.png".to_string();
    let activity = presence_activity(&novel, &quiet);
    assert_eq!(activity.state, "Reading");
    assert_eq!(activity.large_image, Some("https://example.org/custom.png".to_string()));
}

#[test]
fn vndb_searches_ask_for_twenty_ranked_results() {
    let search = vndb_search_request("muramasa".to_string());
    assert_eq!(search.query, "muramasa");
    assert_eq!(search.fields, "id, title, image.url, description, released");
    assert_eq!(search.sort, "searchrank");
    assert_eq!(search.results, 20);
}

#[test]
fn vn_sync_ids_are_sync_and_sixty_four_hex_digits() {
    let valid = format!("sync-{}", "0123456789abcdef".repeat(4));
    assert!(is_valid_vn_sync_id(&valid));
    assert!(!is_valid_vn_sync_id("sync-test"));
    assert!(!is_valid_vn_sync_id(&valid.to_uppercase()));
    assert!(!is_valid_vn_sync_id(&format!("sink-{}", "0".repeat(64))));
}

fn peer() -> PeerConnectionInfo {
    PeerConnectionInfo { endpoint_id: "ae58ff88".to_string(), direct_addresses: vec!["192.168.1.25:49152".to_string()] }
}

#[test]
fn pairing_codes_are_validated() {
    let info = peer();
    assert!(info.check_endpoint_addr(&None, &vec![None]).is_ok());
    assert_eq!(
        info.check_endpoint_addr(&Some("bad key".to_string()), &vec![None]).unwrap_err().message,
        "The peer endpoint id is invalid: bad key"
    );
    assert_eq!(
        info.check_endpoint_addr(&None, &vec![Some("invalid socket address syntax".to_string())]).unwrap_err().message,
        "The peer address '192.168.1.25:49152' is invalid: invalid socket address syntax"
    );
    let no_address = PeerConnectionInfo { endpoint_id: "ae58ff88".to_string(), direct_addresses: Vec::new() };
    assert_eq!(no_address.check_endpoint_addr(&None, &Vec::new()).unwrap_err().message, "The peer did not provide a direct address");

    assert_eq!(pairing_code_text("  {\"a\":1}\n"), "{\"a\":1}");
    let decoded = SyncPairingInfo { peer: peer(), vn_sync_id: format!("sync-{}", "ab".repeat(32)) };
    assert!(SyncPairingInfo::from_pairing_code(Ok(decoded), Ok(())).is_ok());
    let wrong_id = SyncPairingInfo { peer: peer(), vn_sync_id: "sync-test".to_string() };
    assert_eq!(
        SyncPairingInfo::from_pairing_code(Ok(wrong_id), Ok(())).unwrap_err().message,
        "The pairing code contains an invalid VN sync ID"
    );
    assert_eq!(
        PeerConnectionInfo::from_pairing_code(Err("expected value at line 1 column 1".to_string()), Ok(())).unwrap_err().message,
        "The pairing code is invalid: expected value at line 1 column 1"
    );
}

#[test]
fn peer_secrets_are_thirty_two_bytes() {
    assert_eq!(decode_peer_secret(vec![7; 32]).unwrap(), vec![7; 32]);
    assert_eq!(decode_peer_secret(vec![7; 31]).unwrap_err().message, "The save sync peer secret must be exactly 32 bytes");
    assert!(load_peer_secret(Err(IoFailure { kind: IoErrorKind::NotFound, message: "missing".to_string() })).is_none());
    assert_eq!(settle_peer_secret(vec![1; 32], SecretPersist::Persisted).unwrap(), vec![1; 32]);
    assert_eq!(settle_peer_secret(vec![1; 32], SecretPersist::AlreadyExists(Ok(vec![2; 32]))).unwrap(), vec![2; 32]);
}

#[test]
fn host_commands_are_found_through_the_shell() {
    let lookup = host_lookup_command("umu-run".to_string(), false);
    assert_eq!(lookup.program, "sh");
    assert_eq!(lookup.arguments, vec!["-lc", "command -v -- \"$1\"", "sh", "umu-run"]);
    let sandboxed = host_lookup_command("umu-run".to_string(), true);
    assert_eq!(sandboxed.program, "flatpak-spawn");
    assert_eq!(sandboxed.arguments[0], "--host");

    assert_eq!(
        find_host_command(Some(CommandOutput { succeeded: true, stdout: Some("/usr/bin/umu-run\n".to_string()) })),
        Some("/usr/bin/umu-run".to_string())
    );
    assert_eq!(find_host_command(Some(CommandOutput { succeeded: false, stdout: Some("/x".to_string()) })), None);
    assert_eq!(find_host_command(Some(CommandOutput { succeeded: true, stdout: Some(" \n".to_string()) })), None);
    assert_eq!(find_host_command(None), None);
}

#[test]
fn the_host_home_directory_is_found_inside_and_outside_flatpak() {
    assert_eq!(host_home_dir(HomeLookup::Environment(Some("/home/me".to_string()))), Some("/home/me".to_string()));
    assert_eq!(
        host_home_dir(HomeLookup::Host(Some(CommandOutput { succeeded: true, stdout: Some("/home/me".to_string()) }))),
        Some("/home/me".to_string())
    );
    assert_eq!(host_home_dir(HomeLookup::Host(Some(CommandOutput { succeeded: true, stdout: Some(String::new()) }))), None);
}

#[test]
fn folders_open_in_the_desktop_file_manager() {
    assert_eq!(open_folder_command("/saves".to_string(), false).program, "xdg-open");
    assert_eq!(open_folder_command("C:\\saves".to_string(), true).program, "explorer");
    assert!(is_flatpak_document_portal_path("/run/flatpak/doc/abc/save.dat"));
    assert!(!is_flatpak_document_portal_path("/run/flatpak/docs"));
}

#[test]
fn the_add_form_searches_vndb_and_takes_a_result() {
    assert_eq!(search_query("  ").unwrap_err(), "Type a title before searching VNDB");
    assert_eq!(search_query(" Ever17 ").unwrap(), " Ever17 ");
    assert_eq!(search_outcome_message(&Ok(12)), "Found 12 result(s)");
    assert_eq!(search_outcome_message(&Ok(0)), "Found 0 result(s)");
    assert_eq!(search_outcome_message(&Err("timed out".to_string())), "VNDB search failed: timed out");

    let result = VndbSearchResult {
        id: "v17".to_string(),
        title: "Ever17".to_string(),
        image: Some(VndbImage { url: Some("https://t.vndb.org/cv/17.jpg".to_string()) }),
        description: None,
        released: None,
    };
    let filled = fill_from_result(&result);
    assert_eq!(filled.title, "Ever17");
    assert_eq!(filled.description, "");
    assert_eq!(filled.cover_url, Some("https://t.vndb.org/cv/17.jpg".to_string()));
    assert_eq!(filled.cover_path, None);
    assert_eq!(filled.message, "Loaded Ever17.");
    let without_cover = fill_from_result(&VndbSearchResult { image: Some(VndbImage { url: None }), ..result });
    assert_eq!(without_cover.cover_url, None);
}

#[test]
fn sort_modes_are_chosen_by_their_selector_value() {
    for mode in [
        LibrarySortMode::Added,
        LibrarySortMode::TitleAsc,
        LibrarySortMode::TitleDesc,
        LibrarySortMode::LastPlayed,
        LibrarySortMode::MostPlaytime,
    ] {
        assert_eq!(sort_mode_from_value(sort_mode_value(mode)), mode);
    }
    assert_eq!(sort_mode_value(LibrarySortMode::MostPlaytime), "most-playtime");
    assert_eq!(sort_mode_from_value("title-desc"), LibrarySortMode::TitleDesc);
    assert_eq!(sort_mode_from_value("Title-Desc"), LibrarySortMode::Added);
    assert_eq!(sort_mode_from_value(""), LibrarySortMode::Added);
}

#[test]
fn a_created_peer_secret_is_loaded_again_next_time() {
    let generated: Vec<u8> = (0..32).collect();
    let first = load_peer_secret(Err(IoFailure { kind: IoErrorKind::NotFound, message: "missing".to_string() }));
    assert!(first.is_none());
    let created = settle_peer_secret(generated.clone(), SecretPersist::Persisted).unwrap();
    assert_eq!(created, generated);
    let second = load_peer_secret(Ok(created.clone())).unwrap().unwrap();
    assert_eq!(second, created);

    let stored_first: Vec<u8> = vec![7; 32];
    assert_eq!(settle_peer_secret(generated, SecretPersist::AlreadyExists(Ok(stored_first.clone()))).unwrap(), stored_first);
    assert_eq!(load_peer_secret(Ok(vec![1, 2, 3])).unwrap().unwrap_err().kind, IoErrorKind::InvalidData);
}
