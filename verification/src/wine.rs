use vstd::prelude::*;

use crate::launcher::{lines, text_lines};
use crate::paths::{char_views, chars_lt, split, split_chars, text_lt};
use crate::text::{chars_of, starts_with, starts_with_chars, string_of, trim_chars, trimmed};

verus! {

/// A Wine runner found on this system.
#[derive(Debug, PartialEq)]
pub struct WineRunner {
    pub name: String,
    pub binary_path: String,
}

impl View for WineRunner {
    type V = (Seq<char>, Seq<char>);

    open spec fn view(&self) -> (Seq<char>, Seq<char>) {
        (self.name@, self.binary_path@)
    }
}

/// A Proton runner found on this system.
#[derive(Debug, PartialEq)]
pub struct ProtonRunner {
    pub name: String,
    pub path: String,
}

impl View for ProtonRunner {
    type V = (Seq<char>, Seq<char>);

    open spec fn view(&self) -> (Seq<char>, Seq<char>) {
        (self.name@, self.path@)
    }
}

/// A Wine prefix that Steam created for one game.
#[derive(Debug, PartialEq)]
pub struct SteamPrefix {
    pub app_id: String,
    pub game_name: Option<String>,
    pub path: String,
}

pub open spec fn option_text(o: Option<String>) -> Option<Seq<char>> {
    match o {
        Some(s) => Some(s@),
        None => None,
    }
}

impl View for SteamPrefix {
    type V = (Seq<char>, Option<Seq<char>>, Seq<char>);

    open spec fn view(&self) -> (Seq<char>, Option<Seq<char>>, Seq<char>) {
        (self.app_id@, option_text(self.game_name), self.path@)
    }
}

/// A runner as its name and the path that identifies it.
pub type RunnerView = (Seq<char>, Seq<char>);

pub open spec fn wine_views(v: Seq<WineRunner>) -> Seq<RunnerView> {
    v.map_values(|r: WineRunner| r@)
}

pub open spec fn proton_views(v: Seq<ProtonRunner>) -> Seq<RunnerView> {
    v.map_values(|r: ProtonRunner| r@)
}

/// Whether a runner with this path is already listed.
pub open spec fn lists_path(rs: Seq<RunnerView>, path: Seq<char>) -> bool {
    exists|i: int| 0 <= i < rs.len() && (#[trigger] rs[i]).1 == path
}

/// The list with `r` appended, unless a runner with its path is already listed.
pub open spec fn with_runner(rs: Seq<RunnerView>, r: RunnerView) -> Seq<RunnerView> {
    if lists_path(rs, r.1) { rs } else { rs.push(r) }
}

/// The list with each of `new`, in order, added unless its path is already listed.
pub open spec fn with_runners(rs: Seq<RunnerView>, new: Seq<RunnerView>) -> Seq<RunnerView>
    decreases new.len(),
{
    if new.len() == 0 {
        rs
    } else {
        with_runner(with_runners(rs, new.drop_last()), new.last())
    }
}

/// No two runners share a path.
pub open spec fn distinct_paths(rs: Seq<RunnerView>) -> bool {
    forall|i: int, j: int| 0 <= i < j < rs.len() ==> (#[trigger] rs[i]).1 != (#[trigger] rs[j]).1
}

fn find_runner_path(rs: &Vec<WineRunner>, path: &String) -> (r: bool)
    ensures
        r == lists_path(wine_views(rs@), path@),
{
    let mut i: usize = 0;
    while i < rs.len()
        invariant
            i <= rs.len(),
            forall|j: int| 0 <= j < i ==> rs@[j].binary_path@ != path@,
        decreases rs.len() - i,
    {
        if rs[i].binary_path.eq(path) {
            assert(wine_views(rs@)[i as int].1 == path@);
            return true;
        }
        i = i + 1;
    }
    proof {
        if lists_path(wine_views(rs@), path@) {
            let k = choose|k: int| 0 <= k < wine_views(rs@).len() && (#[trigger] wine_views(rs@)[k]).1 == path@;
            assert(rs@[k].binary_path@ == path@);
        }
    }
    false
}

/// Adds a Wine runner unless one with the same binary is already listed.
pub fn add_runner_if_missing(runners: &mut Vec<WineRunner>, runner: WineRunner)
    ensures
        wine_views(final(runners)@) == with_runner(wine_views(old(runners)@), runner@),
{
    let ghost before = wine_views(runners@);
    if !find_runner_path(runners, &runner.binary_path) {
        runners.push(runner);
        assert(wine_views(runners@) =~= before.push(runner@));
    }
}

fn find_proton_path(rs: &Vec<ProtonRunner>, path: &String) -> (r: bool)
    ensures
        r == lists_path(proton_views(rs@), path@),
{
    let mut i: usize = 0;
    while i < rs.len()
        invariant
            i <= rs.len(),
            forall|j: int| 0 <= j < i ==> rs@[j].path@ != path@,
        decreases rs.len() - i,
    {
        if rs[i].path.eq(path) {
            assert(proton_views(rs@)[i as int].1 == path@);
            return true;
        }
        i = i + 1;
    }
    proof {
        if lists_path(proton_views(rs@), path@) {
            let k = choose|k: int| 0 <= k < proton_views(rs@).len() && (#[trigger] proton_views(rs@)[k]).1 == path@;
            assert(rs@[k].path@ == path@);
        }
    }
    false
}

/// Adds a Proton runner unless one with the same directory is already listed.
pub fn add_proton_runner_if_missing(runners: &mut Vec<ProtonRunner>, runner: ProtonRunner)
    ensures
        proton_views(final(runners)@) == with_runner(proton_views(old(runners)@), runner@),
{
    let ghost before = proton_views(runners@);
    if !find_proton_path(runners, &runner.path) {
        runners.push(runner);
        assert(proton_views(runners@) =~= before.push(runner@));
    }
}

/// One entry of a directory that may hold runners: the entry's file name (`None` when
/// it has none), the path that identifies the runner it would be, and whether the file
/// that marks a runner is present (`bin/wine` for Wine, `proton` for Proton).
#[derive(Debug, PartialEq)]
pub struct RunnerEntry {
    pub name: Option<String>,
    pub path: String,
    pub present: bool,
}

/// The runners that a directory's entries describe, in order.
pub open spec fn entry_runners(es: Seq<RunnerEntry>) -> Seq<RunnerView>
    decreases es.len(),
{
    if es.len() == 0 {
        Seq::empty()
    } else {
        let e = es.last();
        let init = entry_runners(es.drop_last());
        if e.present && e.name is Some {
            init.push((e.name->Some_0@, e.path@))
        } else {
            init
        }
    }
}

/// Adds the Wine runners of one directory (each entry with an executable `bin/wine`).
pub fn add_runners_from_directory(runners: &mut Vec<WineRunner>, entries: &Vec<RunnerEntry>)
    ensures
        wine_views(final(runners)@) == with_runners(wine_views(old(runners)@), entry_runners(entries@)),
{
    let ghost start = wine_views(runners@);
    let mut i: usize = 0;
    while i < entries.len()
        invariant
            i <= entries.len(),
            wine_views(runners@) == with_runners(start, entry_runners(entries@.take(i as int))),
        decreases entries.len() - i,
    {
        let e = &entries[i];
        assert(entries@.take(i + 1).drop_last() =~= entries@.take(i as int));
        if e.present {
            match &e.name {
                Some(name) => {
                    add_runner_if_missing(runners, WineRunner { name: name.clone(), binary_path: e.path.clone() });
                    assert(entry_runners(entries@.take(i + 1)) == entry_runners(entries@.take(i as int)).push((name@, e.path@)));
                    assert(entry_runners(entries@.take(i + 1)).drop_last() =~= entry_runners(entries@.take(i as int)));
                },
                None => {},
            }
        }
        i = i + 1;
    }
    assert(entries@.take(entries.len() as int) =~= entries@);
}

/// Adds the Proton runners of one directory (each entry holding a `proton` script).
pub fn add_proton_runners_from_directory(runners: &mut Vec<ProtonRunner>, entries: &Vec<RunnerEntry>)
    ensures
        proton_views(final(runners)@) == with_runners(proton_views(old(runners)@), entry_runners(entries@)),
{
    let ghost start = proton_views(runners@);
    let mut i: usize = 0;
    while i < entries.len()
        invariant
            i <= entries.len(),
            proton_views(runners@) == with_runners(start, entry_runners(entries@.take(i as int))),
        decreases entries.len() - i,
    {
        let e = &entries[i];
        assert(entries@.take(i + 1).drop_last() =~= entries@.take(i as int));
        if e.present {
            match &e.name {
                Some(name) => {
                    add_proton_runner_if_missing(runners, ProtonRunner { name: name.clone(), path: e.path.clone() });
                    assert(entry_runners(entries@.take(i + 1)) == entry_runners(entries@.take(i as int)).push((name@, e.path@)));
                    assert(entry_runners(entries@.take(i + 1)).drop_last() =~= entry_runners(entries@.take(i as int)));
                },
                None => {},
            }
        }
        i = i + 1;
    }
    assert(entries@.take(entries.len() as int) =~= entries@);
}

/// The last part of a path that names something, skipping empty parts and `.`.
pub open spec fn last_named(parts: Seq<Seq<char>>) -> Option<Seq<char>>
    decreases parts.len(),
{
    if parts.len() == 0 {
        None
    } else if parts.last().len() > 0 && parts.last() != seq!['.'] {
        Some(parts.last())
    } else {
        last_named(parts.drop_last())
    }
}

/// The final component of a `/`-separated path, as `Path::file_name` gives it: `None`
/// for a path with no named component or one that ends in `..`.
pub open spec fn file_name_of(path: Seq<char>) -> Option<Seq<char>> {
    match last_named(split(path, '/')) {
        None => None,
        Some(n) => if n == seq!['.', '.'] { None } else { Some(n) },
    }
}

/// The final component of a `/`-separated path.
pub fn path_file_name(path: &Vec<char>) -> (r: Option<Vec<char>>)
    ensures
        match r {
            Some(n) => file_name_of(path@) == Some(n@),
            None => file_name_of(path@) is None,
        },
{
    let parts = split_chars(path, '/');
    let ghost views = char_views(parts@);
    let mut last: Option<usize> = None;
    let mut i: usize = 0;
    while i < parts.len()
        invariant
            i <= parts.len(),
            views == char_views(parts@),
            views == split(path@, '/'),
            match last {
                Some(k) => k < i && last_named(views.take(i as int)) == Some(views[k as int]),
                None => last_named(views.take(i as int)) is None,
            },
        decreases parts.len() - i,
    {
        assert(views.take(i + 1).drop_last() =~= views.take(i as int));
        assert(views.take(i + 1).last() == views[i as int]);
        let p = &parts[i];
        let is_dot = p.len() == 1 && p[0] == '.';
        proof {
            if p@ == seq!['.'] { assert(p@[0] == '.'); }
            if is_dot { assert(p@ =~= seq!['.']); }
        }
        if p.len() > 0 && !is_dot {
            last = Some(i);
        }
        i = i + 1;
    }
    assert(views.take(parts.len() as int) =~= views);
    match last {
        None => None,
        Some(k) => {
            let n = &parts[k];
            let dots = n.len() == 2 && n[0] == '.' && n[1] == '.';
            proof {
                if n@ == seq!['.', '.'] { assert(n@[0] == '.' && n@[1] == '.'); }
                if dots { assert(n@ =~= seq!['.', '.']); }
            }
            if dots {
                None
            } else {
                Some(n.clone())
            }
        },
    }
}

/// Where the Wine binaries on the search path come from.
#[derive(Debug, PartialEq)]
pub enum PathRunners {
    /// Inside a Flatpak sandbox: what the host shell printed for `command -v wine wine64`,
    /// one path per line, or `None` when that could not be run or read as text.
    Host(Option<String>),
    /// Outside one: each `wine` or `wine64` binary found as a regular file in a search
    /// path directory, as its binary name and path, in search order.
    Found(Vec<(String, String)>),
}

/// The name given to a Wine binary found on the search path.
pub open spec fn system_name(binary_name: Seq<char>) -> Seq<char> {
    "System "@ + binary_name
}

/// The runners named by the lines of the host's `command -v` output.
pub open spec fn host_runners(ls: Seq<Seq<char>>) -> Seq<RunnerView>
    decreases ls.len(),
{
    if ls.len() == 0 {
        Seq::empty()
    } else {
        let init = host_runners(ls.drop_last());
        match file_name_of(ls.last()) {
            Some(n) => init.push((system_name(n), ls.last())),
            None => init,
        }
    }
}

pub open spec fn found_runners(found: Seq<(String, String)>) -> Seq<RunnerView> {
    found.map_values(|f: (String, String)| (system_name(f.0@), f.1@))
}

pub open spec fn path_runners(source: PathRunners) -> Seq<RunnerView> {
    match source {
        PathRunners::Host(None) => Seq::empty(),
        PathRunners::Host(Some(text)) => host_runners(lines(text@)),
        PathRunners::Found(found) => found_runners(found@),
    }
}

fn system_runner_name(binary_name: &Vec<char>) -> (r: String)
    ensures
        r@ == system_name(binary_name@),
{
    let mut name = "System ".to_owned();
    name.append(string_of(binary_name).as_str());
    proof { reveal_strlit("System "); }
    name
}

/// The names of the Wine binaries looked for on the search path, in the order they are
/// looked for in each directory.
pub fn path_wine_binary_names() -> (r: Vec<String>)
    ensures
        r@.len() == 2,
        r@[0]@ == "wine"@,
        r@[1]@ == "wine64"@,
{
    let mut r: Vec<String> = Vec::new();
    r.push("wine".to_owned());
    r.push("wine64".to_owned());
    r
}

/// Adds the Wine binaries found on the search path.
pub fn add_path_wine_runners(runners: &mut Vec<WineRunner>, source: &PathRunners)
    ensures
        wine_views(final(runners)@) == with_runners(wine_views(old(runners)@), path_runners(*source)),
{
    let ghost start = wine_views(runners@);
    match source {
        PathRunners::Host(None) => {},
        PathRunners::Host(Some(text)) => {
            let ls = text_lines(&chars_of(text.as_str()));
            let ghost lv = char_views(ls@);
            let mut i: usize = 0;
            while i < ls.len()
                invariant
                    i <= ls.len(),
                    lv == char_views(ls@),
                    lv == lines(text@),
                    wine_views(runners@) == with_runners(start, host_runners(lv.take(i as int))),
                decreases ls.len() - i,
            {
                assert(lv.take(i + 1).drop_last() =~= lv.take(i as int));
                assert(lv.take(i + 1).last() == ls@[i as int]@);
                match path_file_name(&ls[i]) {
                    Some(n) => {
                        let name = system_runner_name(&n);
                        add_runner_if_missing(runners, WineRunner { name, binary_path: string_of(&ls[i]) });
                        assert(host_runners(lv.take(i + 1)).drop_last() =~= host_runners(lv.take(i as int)));
                    },
                    None => {},
                }
                i = i + 1;
            }
            assert(lv.take(ls.len() as int) =~= lv);
        },
        PathRunners::Found(found) => {
            let mut i: usize = 0;
            while i < found.len()
                invariant
                    i <= found.len(),
                    wine_views(runners@) == with_runners(start, found_runners(found@.take(i as int))),
                decreases found.len() - i,
            {
                let (binary_name, binary_path) = &found[i];
                let name = system_runner_name(&chars_of(binary_name.as_str()));
                add_runner_if_missing(runners, WineRunner { name, binary_path: binary_path.clone() });
                assert(found_runners(found@.take(i + 1)).drop_last() =~= found_runners(found@.take(i as int)));
                assert(found_runners(found@.take(i + 1)).last() == (system_name(binary_name@), binary_path@));
                i = i + 1;
            }
            assert(found@.take(found.len() as int) =~= found@);
        },
    }
}

/// The runners after adding those of each directory in turn.
pub open spec fn with_directories(rs: Seq<RunnerView>, dirs: Seq<Vec<RunnerEntry>>) -> Seq<RunnerView>
    decreases dirs.len(),
{
    if dirs.len() == 0 {
        rs
    } else {
        with_runners(with_directories(rs, dirs.drop_last()), entry_runners(dirs.last()@))
    }
}

/// The directories below the host home directory where Lutris and Bottles keep Wine
/// runners, in the order they are searched.
pub fn wine_runner_directories() -> (r: Vec<String>)
    ensures
        r@.len() == 4,
        r@[0]@ == ".local/share/lutris/runners/wine"@,
        r@[1]@ == ".var/app/net.lutris.Lutris/data/lutris/runners/wine"@,
        r@[2]@ == ".local/share/bottles/runners"@,
        r@[3]@ == ".var/app/com.usebottles.bottles/data/bottles/runners"@,
{
    let mut r: Vec<String> = Vec::new();
    r.push(".local/share/lutris/runners/wine".to_owned());
    r.push(".var/app/net.lutris.Lutris/data/lutris/runners/wine".to_owned());
    r.push(".local/share/bottles/runners".to_owned());
    r.push(".var/app/com.usebottles.bottles/data/bottles/runners".to_owned());
    r
}

/// The directories below the host home directory where Steam keeps Proton builds, in
/// the order they are searched.
pub fn proton_runner_directories() -> (r: Vec<String>)
    ensures
        r@.len() == 8,
        r@[0]@ == ".local/share/Steam/compatibilitytools.d"@,
        r@[1]@ == ".steam/root/compatibilitytools.d"@,
        r@[2]@ == ".var/app/com.valvesoftware.Steam/data/Steam/compatibilitytools.d"@,
        r@[3]@ == ".steam/debian-installation/compatibilitytools.d"@,
        r@[4]@ == ".local/share/Steam/steamapps/common"@,
        r@[5]@ == ".steam/root/steamapps/common"@,
        r@[6]@ == ".steam/debian-installation/steamapps/common"@,
        r@[7]@ == ".var/app/com.valvesoftware.Steam/data/Steam/steamapps/common"@,
{
    let mut r: Vec<String> = Vec::new();
    r.push(".local/share/Steam/compatibilitytools.d".to_owned());
    r.push(".steam/root/compatibilitytools.d".to_owned());
    r.push(".var/app/com.valvesoftware.Steam/data/Steam/compatibilitytools.d".to_owned());
    r.push(".steam/debian-installation/compatibilitytools.d".to_owned());
    r.push(".local/share/Steam/steamapps/common".to_owned());
    r.push(".steam/root/steamapps/common".to_owned());
    r.push(".steam/debian-installation/steamapps/common".to_owned());
    r.push(".var/app/com.valvesoftware.Steam/data/Steam/steamapps/common".to_owned());
    r
}

/// The directories below the host home directory where Steam keeps game prefixes, in
/// the order they are searched.
pub fn compatdata_directories() -> (r: Vec<String>)
    ensures
        r@.len() == 4,
        r@[0]@ == ".local/share/Steam/steamapps/compatdata"@,
        r@[1]@ == ".steam/root/steamapps/compatdata"@,
        r@[2]@ == ".steam/debian-installation/steamapps/compatdata"@,
        r@[3]@ == ".var/app/com.valvesoftware.Steam/data/Steam/steamapps/compatdata"@,
{
    let mut r: Vec<String> = Vec::new();
    r.push(".local/share/Steam/steamapps/compatdata".to_owned());
    r.push(".steam/root/steamapps/compatdata".to_owned());
    r.push(".steam/debian-installation/steamapps/compatdata".to_owned());
    r.push(".var/app/com.valvesoftware.Steam/data/Steam/steamapps/compatdata".to_owned());
    r
}

/// The Wine runners of this system: those on the search path first, then those of each
/// runner directory below the home directory (`directories` holds the entries of each
/// directory of `wine_runner_directories`, none when there is no home directory),
/// each binary listed once.
pub fn detect_wine_runners(path_source: &PathRunners, directories: &Vec<Vec<RunnerEntry>>) -> (r: Vec<WineRunner>)
    ensures
        wine_views(r@) == with_directories(with_runners(Seq::empty(), path_runners(*path_source)), directories@),
        distinct_paths(wine_views(r@)),
{
    let mut runners: Vec<WineRunner> = Vec::new();
    assert(wine_views(runners@) =~= Seq::<RunnerView>::empty());
    add_path_wine_runners(&mut runners, path_source);
    let ghost start = wine_views(runners@);
    let mut i: usize = 0;
    while i < directories.len()
        invariant
            i <= directories.len(),
            start == with_runners(Seq::empty(), path_runners(*path_source)),
            wine_views(runners@) == with_directories(start, directories@.take(i as int)),
        decreases directories.len() - i,
    {
        add_runners_from_directory(&mut runners, &directories[i]);
        assert(directories@.take(i + 1).drop_last() =~= directories@.take(i as int));
        i = i + 1;
    }
    assert(directories@.take(directories.len() as int) =~= directories@);
    proof { law_detected_wine_runners_are_distinct(*path_source, directories@); }
    runners
}

/// The Proton runners of this system (`directories` holds the entries of each directory
/// of `proton_runner_directories`, none when there is no home directory), each
/// directory listed once.
pub fn detect_proton_runners(directories: &Vec<Vec<RunnerEntry>>) -> (r: Vec<ProtonRunner>)
    ensures
        proton_views(r@) == with_directories(Seq::empty(), directories@),
        distinct_paths(proton_views(r@)),
{
    let mut runners: Vec<ProtonRunner> = Vec::new();
    let mut i: usize = 0;
    assert(proton_views(runners@) =~= with_directories(Seq::empty(), directories@.take(0)));
    while i < directories.len()
        invariant
            i <= directories.len(),
            proton_views(runners@) == with_directories(Seq::empty(), directories@.take(i as int)),
        decreases directories.len() - i,
    {
        add_proton_runners_from_directory(&mut runners, &directories[i]);
        assert(directories@.take(i + 1).drop_last() =~= directories@.take(i as int));
        i = i + 1;
    }
    assert(directories@.take(directories.len() as int) =~= directories@);
    proof { law_runner_directories_keep_paths_distinct(Seq::empty(), directories@); }
    runners
}

/// Adding a runner keeps every runner path listed once, lists the new path, and keeps
/// the runners already listed, in order.
pub proof fn law_adding_runner_keeps_paths_distinct(rs: Seq<RunnerView>, r: RunnerView)
    requires
        distinct_paths(rs),
    ensures
        distinct_paths(with_runner(rs, r)),
        lists_path(with_runner(rs, r), r.1),
        with_runner(rs, r).take(rs.len() as int) == rs,
{
    let out = with_runner(rs, r);
    if !lists_path(rs, r.1) {
        assert(out[rs.len() as int] == r);
        assert(out.take(rs.len() as int) =~= rs);
        assert forall|i: int, j: int| 0 <= i < j < out.len() implies (#[trigger] out[i]).1 != (#[trigger] out[j]).1 by {
            if j == rs.len() {
                assert(out[i] == rs[i]);
            } else {
                assert(out[i] == rs[i] && out[j] == rs[j]);
            }
        }
    } else {
        assert(out.take(rs.len() as int) =~= rs);
    }
}

/// Adding runners one after another keeps every runner path listed once, and lists
/// each new path.
pub proof fn law_adding_runners_keeps_paths_distinct(rs: Seq<RunnerView>, new: Seq<RunnerView>)
    requires
        distinct_paths(rs),
    ensures
        distinct_paths(with_runners(rs, new)),
        forall|k: int| 0 <= k < new.len() ==> lists_path(with_runners(rs, new), #[trigger] new[k].1),
    decreases new.len(),
{
    if new.len() > 0 {
        let mid = with_runners(rs, new.drop_last());
        law_adding_runners_keeps_paths_distinct(rs, new.drop_last());
        law_adding_runner_keeps_paths_distinct(mid, new.last());
        let out = with_runners(rs, new);
        assert forall|k: int| 0 <= k < new.len() implies lists_path(out, #[trigger] new[k].1) by {
            if k < new.len() - 1 {
                assert(new.drop_last()[k] == new[k]);
                let i = choose|i: int| 0 <= i < mid.len() && (#[trigger] mid[i]).1 == new[k].1;
                assert(out.take(mid.len() as int)[i] == mid[i]);
                assert(out[i] == mid[i]);
            }
        }
    }
}

/// Adding the runners of one directory after another keeps every runner path listed once.
pub proof fn law_runner_directories_keep_paths_distinct(rs: Seq<RunnerView>, directories: Seq<Vec<RunnerEntry>>)
    requires
        distinct_paths(rs),
    ensures
        distinct_paths(with_directories(rs, directories)),
    decreases directories.len(),
{
    if directories.len() > 0 {
        law_runner_directories_keep_paths_distinct(rs, directories.drop_last());
        law_adding_runners_keeps_paths_distinct(with_directories(rs, directories.drop_last()), entry_runners(directories.last()@));
    }
}

/// Every detected Wine runner has its own binary.
pub proof fn law_detected_wine_runners_are_distinct(path_source: PathRunners, directories: Seq<Vec<RunnerEntry>>)
    ensures
        distinct_paths(with_directories(with_runners(Seq::empty(), path_runners(path_source)), directories)),
{
    law_adding_runners_keeps_paths_distinct(Seq::empty(), path_runners(path_source));
    law_runner_directories_keep_paths_distinct(with_runners(Seq::empty(), path_runners(path_source)), directories);
}

/// The game name recorded in the first `"name"` line of a Steam app manifest.
pub open spec fn game_name_in(ls: Seq<Seq<char>>) -> Option<Seq<char>>
    decreases ls.len(),
{
    if ls.len() == 0 {
        None
    } else {
        let t = trimmed(ls[0]);
        if starts_with(t, "\"name\""@) {
            let parts = split(t, '"');
            if parts.len() > 3 { Some(parts[3]) } else { None }
        } else {
            game_name_in(ls.drop_first())
        }
    }
}

/// Reads the game name from the text of a Steam app manifest (`appmanifest_<id>.acf`):
/// the fourth `"`-separated part of its first line that starts with `"name"`.
pub fn steam_game_name(manifest: &str) -> (r: Option<String>)
    ensures
        option_text(r) == game_name_in(lines(manifest@)),
{
    let ls = text_lines(&chars_of(manifest));
    let ghost lv = char_views(ls@);
    let key = chars_of("\"name\"");
    proof { reveal_strlit("\"name\""); }
    let mut i: usize = 0;
    assert(lv.skip(0) =~= lv);
    while i < ls.len()
        invariant
            i <= ls.len(),
            lv == char_views(ls@),
            lv == lines(manifest@),
            key@ == "\"name\""@,
            game_name_in(lv) == game_name_in(lv.skip(i as int)),
        decreases ls.len() - i,
    {
        assert(lv.skip(i as int)[0] == ls@[i as int]@);
        assert(lv.skip(i as int).drop_first() =~= lv.skip(i + 1));
        let t = trim_chars(&ls[i]);
        if starts_with_chars(&t, &key) {
            let parts = split_chars(&t, '"');
            if parts.len() > 3 {
                return Some(string_of(&parts[3]));
            } else {
                return None;
            }
        }
        i = i + 1;
    }
    None
}

/// One entry of a Steam `compatdata` directory: its file name (the app ID, `None` when it
/// has none), the path of its `pfx` prefix directory, whether that is a directory, and
/// the text of the matching `appmanifest_<id>.acf` two levels up, when it could be read.
#[derive(Debug, PartialEq)]
pub struct SteamEntry {
    pub app_id: Option<String>,
    pub prefix_path: String,
    pub prefix_is_dir: bool,
    pub app_manifest: Option<String>,
}

pub type PrefixView = (Seq<char>, Option<Seq<char>>, Seq<char>);

pub open spec fn prefix_views(v: Seq<SteamPrefix>) -> Seq<PrefixView> {
    v.map_values(|p: SteamPrefix| p@)
}

pub open spec fn manifest_game_name(manifest: Option<String>) -> Option<Seq<char>> {
    match manifest {
        Some(t) => game_name_in(lines(t@)),
        None => None,
    }
}

/// The prefixes that a `compatdata` directory's entries describe, in order.
pub open spec fn entry_prefixes(es: Seq<SteamEntry>) -> Seq<PrefixView>
    decreases es.len(),
{
    if es.len() == 0 {
        Seq::empty()
    } else {
        let e = es.last();
        let init = entry_prefixes(es.drop_last());
        if e.prefix_is_dir && e.app_id is Some {
            init.push((e.app_id->Some_0@, manifest_game_name(e.app_manifest), e.prefix_path@))
        } else {
            init
        }
    }
}

pub open spec fn lists_app(ps: Seq<PrefixView>, app_id: Seq<char>) -> bool {
    exists|i: int| 0 <= i < ps.len() && (#[trigger] ps[i]).0 == app_id
}

pub open spec fn with_prefix(ps: Seq<PrefixView>, p: PrefixView) -> Seq<PrefixView> {
    if lists_app(ps, p.0) { ps } else { ps.push(p) }
}

pub open spec fn with_prefixes(ps: Seq<PrefixView>, new: Seq<PrefixView>) -> Seq<PrefixView>
    decreases new.len(),
{
    if new.len() == 0 {
        ps
    } else {
        with_prefix(with_prefixes(ps, new.drop_last()), new.last())
    }
}

pub open spec fn with_compatdata(ps: Seq<PrefixView>, dirs: Seq<Vec<SteamEntry>>) -> Seq<PrefixView>
    decreases dirs.len(),
{
    if dirs.len() == 0 {
        ps
    } else {
        with_prefixes(with_compatdata(ps, dirs.drop_last()), entry_prefixes(dirs.last()@))
    }
}

fn find_app(ps: &Vec<SteamPrefix>, app_id: &String) -> (r: bool)
    ensures
        r == lists_app(prefix_views(ps@), app_id@),
{
    let mut i: usize = 0;
    while i < ps.len()
        invariant
            i <= ps.len(),
            forall|j: int| 0 <= j < i ==> ps@[j].app_id@ != app_id@,
        decreases ps.len() - i,
    {
        if ps[i].app_id.eq(app_id) {
            assert(prefix_views(ps@)[i as int].0 == app_id@);
            return true;
        }
        i = i + 1;
    }
    proof {
        if lists_app(prefix_views(ps@), app_id@) {
            let k = choose|k: int| 0 <= k < prefix_views(ps@).len() && (#[trigger] prefix_views(ps@)[k]).0 == app_id@;
            assert(ps@[k].app_id@ == app_id@);
        }
    }
    false
}

/// Adds the Steam prefixes of one `compatdata` directory, each app listed once.
pub fn add_steam_prefixes_from_directory(prefixes: &mut Vec<SteamPrefix>, entries: &Vec<SteamEntry>)
    ensures
        prefix_views(final(prefixes)@) == with_prefixes(prefix_views(old(prefixes)@), entry_prefixes(entries@)),
{
    let ghost start = prefix_views(prefixes@);
    let mut i: usize = 0;
    while i < entries.len()
        invariant
            i <= entries.len(),
            prefix_views(prefixes@) == with_prefixes(start, entry_prefixes(entries@.take(i as int))),
        decreases entries.len() - i,
    {
        let e = &entries[i];
        assert(entries@.take(i + 1).drop_last() =~= entries@.take(i as int));
        if e.prefix_is_dir {
            match &e.app_id {
                Some(app_id) => {
                    let ghost before = prefix_views(prefixes@);
                    let ghost item = (app_id@, manifest_game_name(e.app_manifest), e.prefix_path@);
                    assert(entry_prefixes(entries@.take(i + 1)) == entry_prefixes(entries@.take(i as int)).push(item));
                    assert(entry_prefixes(entries@.take(i + 1)).drop_last() =~= entry_prefixes(entries@.take(i as int)));
                    if !find_app(prefixes, app_id) {
                        let game_name = match &e.app_manifest {
                            Some(text) => steam_game_name(text.as_str()),
                            None => None,
                        };
                        prefixes.push(SteamPrefix { app_id: app_id.clone(), game_name, path: e.prefix_path.clone() });
                        assert(prefix_views(prefixes@) =~= before.push(item));
                    }
                },
                None => {},
            }
        }
        i = i + 1;
    }
    assert(entries@.take(entries.len() as int) =~= entries@);
}

/// Adding prefixes one after another keeps every app listed once, and lists each new app.
pub proof fn law_adding_prefixes_keeps_apps_distinct(ps: Seq<PrefixView>, new: Seq<PrefixView>)
    requires
        distinct_apps(ps),
    ensures
        distinct_apps(with_prefixes(ps, new)),
        forall|k: int| 0 <= k < new.len() ==> lists_app(with_prefixes(ps, new), #[trigger] new[k].0),
    decreases new.len(),
{
    if new.len() > 0 {
        let mid = with_prefixes(ps, new.drop_last());
        law_adding_prefixes_keeps_apps_distinct(ps, new.drop_last());
        let out = with_prefixes(ps, new);
        let p = new.last();
        if !lists_app(mid, p.0) {
            assert(out[mid.len() as int] == p);
            assert forall|i: int, j: int| 0 <= i < j < out.len() implies (#[trigger] out[i]).0 != (#[trigger] out[j]).0 by {
                if j == mid.len() {
                    assert(out[i] == mid[i]);
                } else {
                    assert(out[i] == mid[i] && out[j] == mid[j]);
                }
            }
        }
        assert forall|k: int| 0 <= k < new.len() implies lists_app(out, #[trigger] new[k].0) by {
            if k < new.len() - 1 {
                assert(new.drop_last()[k] == new[k]);
                let i = choose|i: int| 0 <= i < mid.len() && (#[trigger] mid[i]).0 == new[k].0;
                assert(out[i] == mid[i]);
            } else if !lists_app(mid, p.0) {
                assert(out[mid.len() as int] == p);
            }
        }
    }
}

/// Every detected Steam prefix belongs to its own app.
pub proof fn law_detected_steam_apps_are_distinct(directories: Seq<Vec<SteamEntry>>)
    ensures
        distinct_apps(with_compatdata(Seq::empty(), directories)),
    decreases directories.len(),
{
    if directories.len() > 0 {
        law_detected_steam_apps_are_distinct(directories.drop_last());
        law_adding_prefixes_keeps_apps_distinct(with_compatdata(Seq::empty(), directories.drop_last()), entry_prefixes(directories.last()@));
    }
}

/// Prefixes in non-decreasing order of app ID.
pub open spec fn sorted_by_app(ps: Seq<PrefixView>) -> bool {
    forall|k: int| 0 <= k < ps.len() - 1 ==> !chars_lt(#[trigger] ps[k + 1].0, ps[k].0)
}

/// No two prefixes belong to the same app.
pub open spec fn distinct_apps(ps: Seq<PrefixView>) -> bool {
    forall|i: int, j: int| 0 <= i < j < ps.len() ==> (#[trigger] ps[i]).0 != (#[trigger] ps[j]).0
}

proof fn lemma_chars_lt_asymmetric(a: Seq<char>, b: Seq<char>)
    requires
        chars_lt(a, b),
    ensures
        !chars_lt(b, a),
    decreases a.len(),
{
    if a.len() > 0 && b.len() > 0 && a[0] == b[0] {
        lemma_chars_lt_asymmetric(a.drop_first(), b.drop_first());
    }
}

fn insert_prefix(sorted: &mut Vec<SteamPrefix>, item: SteamPrefix)
    requires
        sorted_by_app(prefix_views(old(sorted)@)),
    ensures
        sorted_by_app(prefix_views(final(sorted)@)),
        prefix_views(final(sorted)@).to_multiset() == prefix_views(old(sorted)@).to_multiset().insert(item@),
{
    let ghost before = sorted@;
    let mut k: usize = 0;
    let mut placed = false;
    while k < sorted.len() && !placed
        invariant
            sorted@ == before,
            k <= sorted.len(),
            placed ==> k < sorted.len() && chars_lt(item.app_id@, before[k as int].app_id@),
            forall|j: int| 0 <= j < k ==> !chars_lt(item.app_id@, #[trigger] before[j].app_id@),
        decreases sorted.len() - k, if placed { 0int } else { 1int },
    {
        if text_lt(&item.app_id, &sorted[k].app_id) {
            placed = true;
        } else {
            k = k + 1;
        }
    }
    let ghost m = item@;
    sorted.insert(k, item);
    proof {
        let a = prefix_views(sorted@);
        let b = prefix_views(before);
        assert(a =~= b.insert(k as int, m));
        vstd::seq_lib::to_multiset_insert(b, k as int, m);
        assert forall|j: int| 0 <= j < a.len() - 1 implies !chars_lt(#[trigger] a[j + 1].0, a[j].0) by {
            if j + 1 < k {
                assert(a[j] == b[j] && a[j + 1] == b[j + 1]);
            } else if j + 1 == k {
                assert(a[j] == b[j] && a[j + 1] == m);
                assert(b[j].0 == before[j].app_id@);
            } else if j == k {
                assert(a[j] == m && a[j + 1] == b[j]);
                assert(b[j].0 == before[j].app_id@);
                lemma_chars_lt_asymmetric(m.0, b[j].0);
            } else {
                assert(a[j] == b[j - 1] && a[j + 1] == b[j]);
                let i = j - 1;
                assert(!chars_lt(b[i + 1].0, b[i].0));
            }
        }
    }
}

proof fn lemma_same_multiset_keeps_apps_distinct(a: Seq<PrefixView>, b: Seq<PrefixView>)
    requires
        a.to_multiset() == b.to_multiset(),
        distinct_apps(b),
    ensures
        distinct_apps(a),
{
    assert(b.no_duplicates()) by {
        assert forall|i: int, j: int| 0 <= i < b.len() && 0 <= j < b.len() && i != j implies b[i] != b[j] by {
            if i < j {
                assert(b[i].0 != b[j].0);
            } else {
                assert(b[j].0 != b[i].0);
            }
        }
    }
    b.lemma_multiset_has_no_duplicates();
    a.lemma_multiset_has_no_duplicates_conv();
    assert forall|i: int, j: int| 0 <= i < j < a.len() implies (#[trigger] a[i]).0 != (#[trigger] a[j]).0 by {
        if a[i].0 == a[j].0 {
            assert(a[i] != a[j]);
            vstd::seq_lib::to_multiset_contains(a, a[i]);
            vstd::seq_lib::to_multiset_contains(a, a[j]);
            assert(a.contains(a[i]));
            assert(a.contains(a[j]));
            vstd::seq_lib::to_multiset_contains(b, a[i]);
            vstd::seq_lib::to_multiset_contains(b, a[j]);
            let p = choose|p: int| 0 <= p < b.len() && b[p] == a[i];
            let q = choose|q: int| 0 <= q < b.len() && b[q] == a[j];
            assert(p != q);
            if p < q {
                assert(b[p].0 != b[q].0);
            } else {
                assert(b[q].0 != b[p].0);
            }
        }
    }
}

/// The Steam game prefixes of this system, ordered by app ID (`directories` holds the
/// entries of each directory of `compatdata_directories`, none when there is no home
/// directory); an app found in several directories is listed once, as first found.
pub fn detect_steam_prefixes(directories: &Vec<Vec<SteamEntry>>) -> (r: Vec<SteamPrefix>)
    ensures
        sorted_by_app(prefix_views(r@)),
        prefix_views(r@).to_multiset() == with_compatdata(Seq::empty(), directories@).to_multiset(),
        distinct_apps(prefix_views(r@)),
{
    let mut found: Vec<SteamPrefix> = Vec::new();
    let mut i: usize = 0;
    assert(prefix_views(found@) =~= with_compatdata(Seq::empty(), directories@.take(0)));
    while i < directories.len()
        invariant
            i <= directories.len(),
            prefix_views(found@) == with_compatdata(Seq::empty(), directories@.take(i as int)),
        decreases directories.len() - i,
    {
        add_steam_prefixes_from_directory(&mut found, &directories[i]);
        assert(directories@.take(i + 1).drop_last() =~= directories@.take(i as int));
        i = i + 1;
    }
    assert(directories@.take(directories.len() as int) =~= directories@);
    let ghost all = prefix_views(found@);
    let mut sorted: Vec<SteamPrefix> = Vec::new();
    assert(prefix_views(sorted@) =~= Seq::<PrefixView>::empty());
    assert(all.skip(found@.len() as int) =~= Seq::<PrefixView>::empty());
    assert(all.take(found@.len() as int) =~= all);
    while found.len() > 0
        invariant
            found@.len() <= all.len(),
            sorted_by_app(prefix_views(sorted@)),
            prefix_views(found@) == all.take(found@.len() as int),
            prefix_views(sorted@).to_multiset() == all.skip(found@.len() as int).to_multiset(),
        decreases found.len(),
    {
        let ghost n = found@.len();
        let ghost old_found = found@;
        let item = found.pop().unwrap();
        proof {
            assert(item == old_found[n - 1]);
            assert(prefix_views(old_found)[n - 1] == all.take(n as int)[n - 1]);
            assert(prefix_views(found@) =~= prefix_views(old_found).drop_last());
            assert(prefix_views(found@) =~= all.take(n - 1));
            assert(all.skip(n - 1) =~= all.skip(n as int).insert(0, all[n - 1]));
            vstd::seq_lib::to_multiset_insert(all.skip(n as int), 0, all[n - 1]);
        }
        insert_prefix(&mut sorted, item);
    }
    assert(all.skip(0) =~= all);
    proof {
        law_detected_steam_apps_are_distinct(directories@);
        lemma_same_multiset_keeps_apps_distinct(prefix_views(sorted@), all);
    }
    sorted
}

} // verus!
