use kakera::wine::{
    add_path_wine_runners, add_runner_if_missing, compatdata_directories, detect_proton_runners, detect_steam_prefixes,
    detect_wine_runners, path_file_name, path_wine_binary_names, proton_runner_directories, steam_game_name,
    wine_runner_directories, PathRunners, ProtonRunner, RunnerEntry, SteamEntry, SteamPrefix, WineRunner,
};

fn runner(name: &str, binary_path: &str) -> WineRunner {
    WineRunner { name: name.to_string(), binary_path: binary_path.to_string() }
}

fn entry(name: Option<&str>, path: &str, present: bool) -> RunnerEntry {
    RunnerEntry { name: name.map(|n| n.to_string()), path: path.to_string(), present }
}

fn file_name(path: &str) -> Option<String> {
    path_file_name(&path.chars().collect()).map(|cs| cs.into_iter().collect())
}

#[test]
fn a_runner_is_added_once_per_binary() {
    let mut runners = Vec::new();
    add_runner_if_missing(&mut runners, runner("System wine", "/usr/bin/wine"));
    add_runner_if_missing(&mut runners, runner("Other name", "/usr/bin/wine"));
    add_runner_if_missing(&mut runners, runner("System wine64", "/usr/bin/wine64"));

    assert_eq!(runners, vec![runner("System wine", "/usr/bin/wine"), runner("System wine64", "/usr/bin/wine64")]);
}

#[test]
fn file_names_follow_path_rules() {
    assert_eq!(file_name("/usr/bin/wine"), Some("wine".to_string()));
    assert_eq!(file_name("/usr/bin/"), Some("bin".to_string()));
    assert_eq!(file_name("tmp/foo.txt/."), Some("foo.txt".to_string()));
    assert_eq!(file_name("foo.txt/.//"), Some("foo.txt".to_string()));
    assert_eq!(file_name("foo.txt/.."), None);
    assert_eq!(file_name("/"), None);
    assert_eq!(file_name(""), None);
}

#[test]
fn host_wine_binaries_are_named_after_their_file() {
    let mut runners = Vec::new();
    add_path_wine_runners(&mut runners, &PathRunners::Host(Some("/usr/bin/wine\n/usr/bin/wine64\n/usr/bin/wine\n".to_string())));

    assert_eq!(runners, vec![runner("System wine", "/usr/bin/wine"), runner("System wine64", "/usr/bin/wine64")]);

    let mut none = Vec::new();
    add_path_wine_runners(&mut none, &PathRunners::Host(None));
    assert!(none.is_empty());
}

#[test]
fn search_path_wine_binaries_are_named_after_the_binary() {
    let names = path_wine_binary_names();
    assert_eq!(names, vec!["wine".to_string(), "wine64".to_string()]);

    let mut runners = Vec::new();
    add_path_wine_runners(
        &mut runners,
        &PathRunners::Found(vec![("wine".to_string(), "/usr/bin/wine".to_string()), ("wine64".to_string(), "/opt/bin/wine64".to_string())]),
    );

    assert_eq!(runners, vec![runner("System wine", "/usr/bin/wine"), runner("System wine64", "/opt/bin/wine64")]);
}

#[test]
fn detected_wine_runners_come_from_the_path_then_the_runner_directories() {
    let lutris = vec![
        entry(Some("lutris-ge-8"), "/home/me/.local/share/lutris/runners/wine/lutris-ge-8/bin/wine", true),
        entry(Some("broken"), "/home/me/.local/share/lutris/runners/wine/broken/bin/wine", false),
    ];
    let bottles = vec![entry(Some("soda"), "/home/me/.local/share/bottles/runners/soda/bin/wine", true)];
    let runners = detect_wine_runners(
        &PathRunners::Found(vec![("wine".to_string(), "/usr/bin/wine".to_string())]),
        &vec![lutris, Vec::new(), bottles, Vec::new()],
    );

    assert_eq!(
        runners,
        vec![
            runner("System wine", "/usr/bin/wine"),
            runner("lutris-ge-8", "/home/me/.local/share/lutris/runners/wine/lutris-ge-8/bin/wine"),
            runner("soda", "/home/me/.local/share/bottles/runners/soda/bin/wine"),
        ]
    );
}

#[test]
fn proton_runners_are_listed_once_per_directory() {
    let common = vec![
        entry(Some("Proton 9.0"), "/s/steamapps/common/Proton 9.0", true),
        entry(Some("Some Game"), "/s/steamapps/common/Some Game", false),
    ];
    let again = vec![entry(Some("Proton 9.0"), "/s/steamapps/common/Proton 9.0", true)];
    let runners = detect_proton_runners(&vec![common, again]);

    assert_eq!(runners, vec![ProtonRunner { name: "Proton 9.0".to_string(), path: "/s/steamapps/common/Proton 9.0".to_string() }]);
}

#[test]
fn steam_manifests_give_the_game_name() {
    let manifest = "\"AppState\"\n{\n\t\"appid\"\t\t\"1234\"\n\t\"name\"\t\t\"Some Visual Novel\"\n}\n";

    assert_eq!(steam_game_name(manifest), Some("Some Visual Novel".to_string()));
    assert_eq!(steam_game_name("\"AppState\"\n{\n}\n"), None);
    assert_eq!(steam_game_name("  \"name\"\n"), None);
}

#[test]
fn steam_prefixes_are_sorted_by_app_and_listed_once() {
    let first = vec![
        SteamEntry { app_id: Some("900".to_string()), prefix_path: "/a/900/pfx".to_string(), prefix_is_dir: true, app_manifest: None },
        SteamEntry {
            app_id: Some("1234".to_string()),
            prefix_path: "/a/1234/pfx".to_string(),
            prefix_is_dir: true,
            app_manifest: Some("\t\"name\"\t\t\"Game\"\n".to_string()),
        },
        SteamEntry { app_id: Some("77".to_string()), prefix_path: "/a/77/pfx".to_string(), prefix_is_dir: false, app_manifest: None },
    ];
    let second = vec![SteamEntry { app_id: Some("900".to_string()), prefix_path: "/b/900/pfx".to_string(), prefix_is_dir: true, app_manifest: None }];
    let prefixes = detect_steam_prefixes(&vec![first, second]);

    assert_eq!(
        prefixes,
        vec![
            SteamPrefix { app_id: "1234".to_string(), game_name: Some("Game".to_string()), path: "/a/1234/pfx".to_string() },
            SteamPrefix { app_id: "900".to_string(), game_name: None, path: "/a/900/pfx".to_string() },
        ]
    );
}

#[test]
fn runner_directories_are_searched_in_a_fixed_order() {
    assert_eq!(wine_runner_directories()[0], ".local/share/lutris/runners/wine");
    assert_eq!(wine_runner_directories().len(), 4);
    assert_eq!(proton_runner_directories().len(), 8);
    assert_eq!(proton_runner_directories()[7], ".var/app/com.valvesoftware.Steam/data/Steam/steamapps/common");
    assert_eq!(compatdata_directories()[1], ".steam/root/steamapps/compatdata");
}
