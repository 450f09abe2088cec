use vstd::prelude::*;

use crate::error::{IoErrorKind, IoFailure};
use crate::models::LaunchMode;
use crate::paths::{char_views, ComponentModel, LocalPath};
use crate::text::{
    char_is_white_space, chars_of, decimal, find_chars, find_from, has_white_space,
    has_white_space_chars, is_white_space, lemma_find_from_bounds, push_decimal,
    skip_white_forward, string_from_chars, string_of, sub_chars, trim_chars, trimmed,
};

verus! {

/// `l` without the carriage return that ends it, if one does.
pub open spec fn strip_carriage_return(l: Seq<char>) -> Seq<char> {
    if l.len() > 0 && l.last() == '\r' { l.drop_last() } else { l }
}

/// The lines of `s` from position `start` on, as `str::lines` yields them: split at each
/// `\n`, with a `\r` right before the `\n` removed, and no empty line after a final `\n`.
pub open spec fn lines_from(s: Seq<char>, start: int) -> Seq<Seq<char>>
    decreases s.len() + 1 - start,
{
    if start < 0 || start >= s.len() {
        Seq::empty()
    } else {
        proof { lemma_find_from_bounds(s, seq!['\n'], start); }
        match find_from(s, seq!['\n'], start) {
            Some(i) => seq![strip_carriage_return(s.subrange(start, i))] + lines_from(s, i + 1),
            None => seq![s.subrange(start, s.len() as int)],
        }
    }
}

pub open spec fn lines(s: Seq<char>) -> Seq<Seq<char>> {
    lines_from(s, 0)
}

/// The lines of `s`, as `str::lines` yields them.
pub fn text_lines(s: &Vec<char>) -> (r: Vec<Vec<char>>)
    ensures
        char_views(r@) == lines(s@),
{
    let newline = vec!['\n'];
    let mut out: Vec<Vec<char>> = Vec::new();
    let mut start: usize = 0;
    assert(char_views(out@) + lines_from(s@, 0) =~= lines(s@));
    while start < s.len()
        invariant
            newline@ == seq!['\n'],
            start <= s.len(),
            char_views(out@) + lines_from(s@, start as int) == lines(s@),
        decreases s.len() - start,
    {
        let ghost before = char_views(out@);
        proof { lemma_find_from_bounds(s@, seq!['\n'], start as int); }
        let (line, next) = match find_chars(s, &newline, start) {
            Some(i) => {
                let mut end = i;
                if end > start && s[end - 1] == '\r' {
                    end = end - 1;
                }
                let line = sub_chars(s, start, end);
                assert(line@ == strip_carriage_return(s@.subrange(start as int, i as int))) by {
                    if i > start && s@[i - 1] == '\r' {
                        assert(s@.subrange(start as int, i as int).drop_last() =~= s@.subrange(start as int, i - 1));
                    }
                }
                (line, i + 1)
            },
            None => (sub_chars(s, start, s.len()), s.len()),
        };
        assert(lines_from(s@, start as int) == seq![line@] + lines_from(s@, next as int));
        out.push(line);
        assert(char_views(out@) =~= before.push(line@));
        assert(before.push(line@) + lines_from(s@, next as int) =~= before + lines_from(s@, start as int));
        start = next;
    }
    assert(lines_from(s@, start as int) =~= Seq::<Seq<char>>::empty());
    assert(char_views(out@) + Seq::<Seq<char>>::empty() =~= char_views(out@));
    out
}

/// What one line of an environment text means.
pub enum EnvLine {
    Skip,
    Variable(Seq<char>, Seq<char>),
    MissingEquals,
    EmptyName,
    WhitespaceInName,
}

/// How one line of an environment text reads: blank lines and `#` comments are skipped,
/// and any other line must be `NAME=value`, with both sides trimmed and a name that is
/// not empty and holds no white space.
pub open spec fn env_line(line: Seq<char>) -> EnvLine {
    let t = trimmed(line);
    if t.len() == 0 || t[0] == '#' {
        EnvLine::Skip
    } else {
        match find_from(t, seq!['='], 0) {
            None => EnvLine::MissingEquals,
            Some(e) => {
                let name = trimmed(t.take(e));
                let value = trimmed(t.skip(e + 1));
                if name.len() == 0 {
                    EnvLine::EmptyName
                } else if has_white_space(name) {
                    EnvLine::WhitespaceInName
                } else {
                    EnvLine::Variable(name, value)
                }
            },
        }
    }
}

/// The variables of the lines from index `i` on, after those already `found`; or the
/// message for the first line that is not well formed (lines are numbered from 1).
pub open spec fn env_from(ls: Seq<Seq<char>>, i: int, found: Seq<(Seq<char>, Seq<char>)>) -> Result<Seq<(Seq<char>, Seq<char>)>, Seq<char>>
    decreases ls.len() - i,
{
    if i < 0 || i >= ls.len() {
        Ok(found)
    } else {
        match env_line(ls[i]) {
            EnvLine::Skip => env_from(ls, i + 1, found),
            EnvLine::Variable(n, v) => env_from(ls, i + 1, found.push((n, v))),
            EnvLine::MissingEquals => Err("Line "@ + decimal((i + 1) as nat) + " must be KEY=value"@),
            EnvLine::EmptyName => Err("Line "@ + decimal((i + 1) as nat) + " has an empty variable name"@),
            EnvLine::WhitespaceInName => Err("Line "@ + decimal((i + 1) as nat) + " has whitespace in the variable name"@),
        }
    }
}

/// The environment variables that a text of `NAME=value` lines sets, in order.
pub open spec fn launch_environment(text: Seq<char>) -> Result<Seq<(Seq<char>, Seq<char>)>, Seq<char>> {
    env_from(lines(text), 0, Seq::empty())
}

pub open spec fn pair_views(v: Seq<(String, String)>) -> Seq<(Seq<char>, Seq<char>)> {
    v.map_values(|p: (String, String)| (p.0@, p.1@))
}

fn line_error(number: usize, text: &str) -> (r: String)
    ensures
        r@ == "Line "@ + decimal(number as nat) + text@,
{
    let mut message = "Line ".to_owned();
    push_decimal(&mut message, number as u64);
    message.append(text);
    message
}

/// Reads environment variables written as one `NAME=value` per line.
pub fn parse_launch_environment(environment_text: String) -> (r: Result<Vec<(String, String)>, String>)
    ensures
        match r {
            Ok(v) => launch_environment(environment_text@) == Ok::<Seq<(Seq<char>, Seq<char>)>, Seq<char>>(pair_views(v@)),
            Err(m) => launch_environment(environment_text@) == Err::<Seq<(Seq<char>, Seq<char>)>, Seq<char>>(m@),
        },
{
    let s = chars_of(environment_text.as_str());
    let newline = vec!['\n'];
    let equals = vec!['='];
    let ghost ls = lines(s@);
    let mut environment: Vec<(String, String)> = Vec::new();
    let mut start: usize = 0;
    let mut index: usize = 0;
    let ghost mut rest = lines_from(s@, 0);
    assert(pair_views(environment@) =~= Seq::empty());
    while start < s.len()
        invariant
            s@ == environment_text@,
            newline@ == seq!['\n'],
            equals@ == seq!['='],
            ls == lines(s@),
            start <= s.len(),
            index <= start,
            index <= ls.len(),
            ls.skip(index as int) == lines_from(s@, start as int),
            launch_environment(s@) == env_from(ls, index as int, pair_views(environment@)),
        decreases s.len() - start,
    {
        proof { lemma_find_from_bounds(s@, seq!['\n'], start as int); }
        let (line, next) = match find_chars(&s, &newline, start) {
            Some(i) => {
                let mut end = i;
                if end > start && s[end - 1] == '\r' {
                    end = end - 1;
                }
                let line = sub_chars(&s, start, end);
                assert(line@ == strip_carriage_return(s@.subrange(start as int, i as int))) by {
                    if i > start && s@[i - 1] == '\r' {
                        assert(s@.subrange(start as int, i as int).drop_last() =~= s@.subrange(start as int, i - 1));
                    }
                }
                (line, i + 1)
            },
            None => (sub_chars(&s, start, s.len()), s.len()),
        };
        proof {
            assert(lines_from(s@, start as int)[0] == line@);
            assert(lines_from(s@, start as int).drop_first() =~= lines_from(s@, next as int));
            assert(ls[index as int] == ls.skip(index as int)[0]);
            assert(ls.skip(index as int).drop_first() =~= ls.skip(index + 1));
        }
        let t = trim_chars(&line);
        if t.len() == 0 || t[0] == '#' {
        } else {
            proof { lemma_find_from_bounds(t@, seq!['='], 0); }
            match find_chars(&t, &equals, 0) {
                None => {
                    return Err(line_error(index + 1, " must be KEY=value"));
                },
                Some(e) => {
                    let name = trim_chars(&sub_chars(&t, 0, e));
                    let value = trim_chars(&sub_chars(&t, e + 1, t.len()));
                    assert(t@.subrange(0, e as int) =~= t@.take(e as int));
                    assert(t@.subrange(e + 1, t@.len() as int) =~= t@.skip(e + 1));
                    if name.len() == 0 {
                        return Err(line_error(index + 1, " has an empty variable name"));
                    }
                    if has_white_space_chars(&name) {
                        return Err(line_error(index + 1, " has whitespace in the variable name"));
                    }
                    let ghost before = pair_views(environment@);
                    environment.push((string_of(&name), string_of(&value)));
                    assert(pair_views(environment@) =~= before.push((name@, value@)));
                },
            }
        }
        start = next;
        index = index + 1;
    }
    assert(ls.skip(index as int) =~= Seq::<Seq<char>>::empty());
    Ok(environment)
}

/// The end of the run of non-white-space characters that starts at `i`.
pub open spec fn word_end(s: Seq<char>, i: int) -> int
    decreases s.len() - i,
{
    if 0 <= i < s.len() && !is_white_space(s[i]) {
        word_end(s, i + 1)
    } else {
        i
    }
}

pub proof fn lemma_word_end_bounds(s: Seq<char>, i: int)
    requires
        0 <= i <= s.len(),
    ensures
        i <= word_end(s, i) <= s.len(),
    decreases s.len() - i,
{
    if i < s.len() && !is_white_space(s[i]) {
        lemma_word_end_bounds(s, i + 1);
    }
}

pub proof fn lemma_skip_bounds(s: Seq<char>, i: int)
    requires
        0 <= i <= s.len(),
    ensures
        i <= skip_white_forward(s, i, s.len() as int) <= s.len(),
    decreases s.len() - i,
{
    if i < s.len() && is_white_space(s[i]) {
        lemma_skip_bounds(s, i + 1);
    }
}

/// The white space separated words of `s` from `i` on, as `str::split_whitespace` yields them.
pub open spec fn words_from(s: Seq<char>, i: int) -> Seq<Seq<char>>
    decreases s.len() - i,
{
    if i < 0 || i > s.len() {
        Seq::empty()
    } else {
        let a = skip_white_forward(s, i, s.len() as int);
        proof {
            lemma_skip_bounds(s, i);
            lemma_word_end_bounds(s, a);
        }
        if a >= s.len() {
            Seq::empty()
        } else {
            let b = word_end(s, a);
            if b <= i { Seq::empty() } else { seq![s.subrange(a, b)] + words_from(s, b) }
        }
    }
}

pub open spec fn words(s: Seq<char>) -> Seq<Seq<char>> {
    words_from(s, 0)
}

pub open spec fn string_views(v: Seq<String>) -> Seq<Seq<char>> {
    v.map_values(|s: String| s@)
}

/// Splits `text` into its white space separated words.
pub fn split_whitespace(text: &String) -> (r: Vec<String>)
    ensures
        string_views(r@) == words(text@),
{
    let s = chars_of(text.as_str());
    let mut out: Vec<String> = Vec::new();
    let mut i: usize = 0;
    assert(string_views(out@) + words_from(s@, 0) =~= words(s@));
    while i < s.len()
        invariant
            s@ == text@,
            i <= s.len(),
            string_views(out@) + words_from(s@, i as int) == words(s@),
        decreases s.len() - i,
    {
        let ghost before = string_views(out@);
        let mut a = i;
        while a < s.len() && char_is_white_space(s[a])
            invariant
                i <= a <= s.len(),
                skip_white_forward(s@, i as int, s.len() as int) == skip_white_forward(s@, a as int, s.len() as int),
            decreases s.len() - a,
        {
            a = a + 1;
        }
        if a == s.len() {
            assert(words_from(s@, i as int) =~= Seq::<Seq<char>>::empty());
            i = a;
        } else {
            let mut b = a;
            while b < s.len() && !char_is_white_space(s[b])
                invariant
                    a <= b <= s.len(),
                    word_end(s@, a as int) == word_end(s@, b as int),
                decreases s.len() - b,
            {
                b = b + 1;
            }
            out.push(string_from_chars(&s, a, b));
            assert(string_views(out@) =~= before.push(s@.subrange(a as int, b as int)));
            assert(words_from(s@, i as int) == seq![s@.subrange(a as int, b as int)] + words_from(s@, b as int));
            assert(before.push(s@.subrange(a as int, b as int)) + words_from(s@, b as int) =~= before + words_from(s@, i as int));
            i = b;
        }
    }
    assert(words_from(s@, i as int) =~= Seq::<Seq<char>>::empty());
    out
}

/// A program to start: what to run, its arguments, the variables added to its environment
/// and the directory to start it in.
#[derive(Debug, PartialEq)]
pub struct CommandPlan {
    pub program: String,
    pub arguments: Vec<String>,
    pub environment: Vec<(String, String)>,
    pub current_dir: Option<String>,
}

/// A [`CommandPlan`] as plain values.
pub struct CommandModel {
    pub program: Seq<char>,
    pub arguments: Seq<Seq<char>>,
    pub environment: Seq<(Seq<char>, Seq<char>)>,
    pub current_dir: Option<Seq<char>>,
}

pub open spec fn option_view(o: Option<String>) -> Option<Seq<char>> {
    match o {
        Some(s) => Some(s@),
        None => None,
    }
}

impl CommandPlan {
    pub open spec fn model(&self) -> CommandModel {
        CommandModel {
            program: self.program@,
            arguments: string_views(self.arguments@),
            environment: pair_views(self.environment@),
            current_dir: option_view(self.current_dir),
        }
    }
}

/// The facts about the host that decide how a program is started.
#[derive(Debug, Clone, PartialEq)]
pub struct HostContext {
    /// Whether the application runs inside Flatpak.
    pub flatpak: bool,
    /// Whether the host runs Windows.
    pub windows: bool,
    /// The value of `DISPLAY`, if set and readable.
    pub display: Option<String>,
}

pub open spec fn env_arguments(env: Seq<(Seq<char>, Seq<char>)>) -> Seq<Seq<char>> {
    env.map_values(|p: (Seq<char>, Seq<char>)| "--env="@ + p.0 + "="@ + p.1)
}

/// How a program is started on the host: directly, or through `flatpak-spawn --host`
/// (which passes the display, the directory and each variable as options) inside Flatpak.
pub open spec fn host_command_model(program: Seq<char>, env: Seq<(Seq<char>, Seq<char>)>, dir: Option<Seq<char>>, flatpak: bool, display: Option<Seq<char>>) -> CommandModel {
    if flatpak {
        CommandModel {
            program: "flatpak-spawn"@,
            arguments: seq!["--host"@]
                + (match display { Some(d) => seq!["--env=DISPLAY="@ + d], None => Seq::empty() })
                + (match dir { Some(d) => seq!["--directory="@ + d], None => Seq::empty() })
                + env_arguments(env)
                + seq![program],
            environment: Seq::empty(),
            current_dir: None,
        }
    } else {
        CommandModel { program, arguments: Seq::empty(), environment: env, current_dir: dir }
    }
}

fn concat3(a: &str, b: &String, c: &str, d: &String) -> (r: String)
    ensures
        r@ == a@ + b@ + c@ + d@,
{
    let mut s = a.to_owned();
    s.append(b.as_str());
    s.append(c);
    s.append(d.as_str());
    s
}

fn prefixed(a: &str, b: &String) -> (r: String)
    ensures
        r@ == a@ + b@,
{
    let mut s = a.to_owned();
    s.append(b.as_str());
    s
}

fn clone_pairs(v: &Vec<(String, String)>) -> (r: Vec<(String, String)>)
    ensures
        pair_views(r@) == pair_views(v@),
{
    let mut r: Vec<(String, String)> = Vec::new();
    let mut i: usize = 0;
    while i < v.len()
        invariant
            i <= v.len(),
            pair_views(r@) == pair_views(v@.take(i as int)),
        decreases v.len() - i,
    {
        let ghost before = pair_views(r@);
        r.push((v[i].0.clone(), v[i].1.clone()));
        assert(pair_views(r@) =~= before.push((v@[i as int].0@, v@[i as int].1@)));
        assert(pair_views(v@.take(i + 1)) =~= pair_views(v@.take(i as int)).push((v@[i as int].0@, v@[i as int].1@)));
        i = i + 1;
    }
    assert(v@.take(v.len() as int) =~= v@);
    r
}

/// The command that runs `program` on the host with `environment` in `working_directory`.
pub fn host_command(program: String, environment: Vec<(String, String)>, working_directory: Option<String>, host: &HostContext) -> (r: CommandPlan)
    ensures
        r.model() == host_command_model(program@, pair_views(environment@), option_view(working_directory), host.flatpak, option_view(host.display)),
{
    if host.flatpak {
        let mut arguments: Vec<String> = Vec::new();
        arguments.push("--host".to_owned());
        let ghost a0 = string_views(arguments@);
        assert(a0 =~= seq!["--host"@]);
        if let Some(display) = &host.display {
            arguments.push(prefixed("--env=DISPLAY=", display));
        }
        let ghost a1 = string_views(arguments@);
        assert(a1 =~= seq!["--host"@] + (match option_view(host.display) { Some(d) => seq!["--env=DISPLAY="@ + d], None => Seq::empty() }));
        if let Some(directory) = &working_directory {
            arguments.push(prefixed("--directory=", directory));
        }
        let ghost a2 = string_views(arguments@);
        assert(a2 =~= a1 + (match option_view(working_directory) { Some(d) => seq!["--directory="@ + d], None => Seq::empty() }));
        let ghost env = pair_views(environment@);
        let mut i: usize = 0;
        while i < environment.len()
            invariant
                i <= environment.len(),
                env == pair_views(environment@),
                string_views(arguments@) == a2 + env_arguments(env.take(i as int)),
            decreases environment.len() - i,
        {
            let ghost before = string_views(arguments@);
            arguments.push(concat3("--env=", &environment[i].0, "=", &environment[i].1));
            assert(env_arguments(env.take(i + 1)) =~= env_arguments(env.take(i as int)).push("--env="@ + env[i as int].0 + "="@ + env[i as int].1));
            assert(string_views(arguments@) =~= before.push("--env="@ + env[i as int].0 + "="@ + env[i as int].1));
            i = i + 1;
        }
        assert(env.take(environment.len() as int) =~= env);
        let ghost a3 = string_views(arguments@);
        let ghost pv = program@;
        arguments.push(program);
        assert(string_views(arguments@) =~= a3.push(pv));
        assert(a3 == a2 + env_arguments(env));
        assert(string_views(arguments@) =~= host_command_model(pv, env, option_view(working_directory), true, option_view(host.display)).arguments);
        let r = CommandPlan { program: "flatpak-spawn".to_owned(), arguments, environment: Vec::new(), current_dir: None };
        assert(r.model().environment =~= Seq::<(Seq<char>, Seq<char>)>::empty());
        r
    } else {
        let r = CommandPlan { program, arguments: Vec::new(), environment, current_dir: working_directory };
        assert(r.model().arguments =~= Seq::<Seq<char>>::empty());
        r
    }
}

/// What is needed to start one visual novel or tool.
#[derive(Debug, Clone, PartialEq)]
pub struct LaunchRequest {
    pub executable_path: String,
    pub launch_mode: LaunchMode,
    pub steam_app_id: Option<u32>,
    pub wine_binary: Option<String>,
    pub wine_prefix: Option<String>,
    pub wine_locale: Option<String>,
    pub proton_path: Option<String>,
    pub umu_game_id: String,
    pub launch_arguments: String,
    pub launch_environment: Vec<(String, String)>,
    /// The directory that holds the executable, if it has one.
    pub working_directory: Option<String>,
}

pub open spec fn optional_var(name: Seq<char>, value: Option<String>) -> Seq<(Seq<char>, Seq<char>)> {
    match value {
        Some(v) => seq![(name, v@)],
        None => Seq::empty(),
    }
}

pub open spec fn locale_vars(locale: Option<String>) -> Seq<(Seq<char>, Seq<char>)> {
    match locale {
        Some(l) => seq![("LANG"@, l@), ("LC_ALL"@, l@)],
        None => Seq::empty(),
    }
}

pub open spec fn with_arguments(c: CommandModel, extra: Seq<Seq<char>>) -> CommandModel {
    CommandModel { program: c.program, arguments: c.arguments + extra, environment: c.environment, current_dir: c.current_dir }
}

/// How a visual novel is started. `umu_run` is where the host's `umu-run` was found; it is
/// only read for Proton outside Flatpak.
pub open spec fn launch_plan(req: LaunchRequest, host: HostContext, umu_run: Option<String>) -> Result<CommandModel, (IoErrorKind, Seq<char>)> {
    let exe = req.executable_path@;
    let env = pair_views(req.launch_environment@);
    let dir = option_view(req.working_directory);
    let display = option_view(host.display);
    match req.launch_mode {
        LaunchMode::Native => Ok(host_command_model(exe, env, dir, host.flatpak, display)),
        LaunchMode::Wine => {
            let program = match req.wine_binary { Some(b) => b@, None => "wine"@ };
            let vars = env + optional_var("WINEPREFIX"@, req.wine_prefix) + locale_vars(req.wine_locale);
            Ok(with_arguments(host_command_model(program, vars, dir, host.flatpak, display), seq![exe] + words(req.launch_arguments@)))
        },
        LaunchMode::Proton => {
            let vars = env + optional_var("WINEPREFIX"@, req.wine_prefix) + optional_var("PROTONPATH"@, req.proton_path)
                + locale_vars(req.wine_locale) + seq![("GAMEID"@, req.umu_game_id@)];
            if host.flatpak {
                Ok(CommandModel { program: "/app/bin/umu-run"@, arguments: seq![exe] + words(req.launch_arguments@), environment: vars, current_dir: dir })
            } else {
                match umu_run {
                    None => Err((IoErrorKind::NotFound, "UMU Launcher not found"@)),
                    Some(u) => Ok(with_arguments(host_command_model(u@, vars, dir, false, display), seq![exe] + words(req.launch_arguments@))),
                }
            }
        },
        LaunchMode::Steam => match req.steam_app_id {
            None => Err((IoErrorKind::InvalidInput, "Steam App ID is not configured"@)),
            Some(id) => if host.windows {
                Ok(CommandModel {
                    program: "cmd"@,
                    arguments: seq!["/C"@, "start"@, ""@, "steam://rungameid/"@ + decimal(id as nat)],
                    environment: Seq::empty(),
                    current_dir: None,
                })
            } else {
                Ok(with_arguments(host_command_model("steam"@, env, dir, host.flatpak, display), seq!["-applaunch"@, decimal(id as nat)]))
            },
        },
    }
}

/// A Wine launch runs the Wine binary chosen for the visual novel (the system `wine` only
/// when none is chosen), with the game's executable as its first argument: as the
/// program itself outside Flatpak, and as the host program that `flatpak-spawn` starts,
/// directly followed by the executable, inside Flatpak.
pub proof fn law_wine_launches_use_the_chosen_runner(req: LaunchRequest, host: HostContext, umu_run: Option<String>)
    requires
        req.launch_mode == LaunchMode::Wine,
    ensures
        launch_plan(req, host, umu_run) matches Ok(m) && {
            let runner = match req.wine_binary {
                Some(b) => b@,
                None => "wine"@,
            };
            &&& !host.flatpak ==> m.program == runner && m.arguments.len() > 0 && m.arguments[0] == req.executable_path@
            &&& host.flatpak ==> m.program == "flatpak-spawn"@ && exists|k: int| 0 <= k && k + 1 < m.arguments.len()
                && #[trigger] m.arguments[k] == runner && m.arguments[k + 1] == req.executable_path@
        },
{
    let exe = req.executable_path@;
    let runner = match req.wine_binary { Some(b) => b@, None => "wine"@ };
    let env = pair_views(req.launch_environment@);
    let vars = env + optional_var("WINEPREFIX"@, req.wine_prefix) + locale_vars(req.wine_locale);
    let dir = option_view(req.working_directory);
    let display = option_view(host.display);
    let base = host_command_model(runner, vars, dir, host.flatpak, display);
    let extra = seq![exe] + words(req.launch_arguments@);
    let m = with_arguments(base, extra);
    assert(launch_plan(req, host, umu_run) == Ok::<CommandModel, (IoErrorKind, Seq<char>)>(m));
    assert(extra[0] == exe);
    if host.flatpak {
        let k = base.arguments.len() - 1;
        assert(base.arguments[k] == runner);
        assert(m.arguments[k] == runner);
        assert(m.arguments[k + 1] == exe);
    } else {
        assert(m.arguments =~= extra);
    }
}

/// Whether starting `mode` needs the location of the host's `umu-run`.
pub fn needs_umu_run(mode: LaunchMode, host: &HostContext) -> (r: bool)
    ensures
        r == (mode == LaunchMode::Proton && !host.flatpak),
{
    mode == LaunchMode::Proton && !host.flatpak
}

fn push_optional_var(vars: &mut Vec<(String, String)>, name: &str, value: &Option<String>)
    ensures
        pair_views(final(vars)@) == pair_views(old(vars)@) + optional_var(name@, *value),
{
    let ghost before = pair_views(vars@);
    if let Some(v) = value {
        vars.push((name.to_owned(), v.clone()));
        assert(pair_views(vars@) =~= before + seq![(name@, v@)]);
    } else {
        assert(pair_views(vars@) =~= before + Seq::empty());
    }
}

fn push_locale_vars(vars: &mut Vec<(String, String)>, locale: &Option<String>)
    ensures
        pair_views(final(vars)@) == pair_views(old(vars)@) + locale_vars(*locale),
{
    let ghost before = pair_views(vars@);
    if let Some(l) = locale {
        vars.push(("LANG".to_owned(), l.clone()));
        vars.push(("LC_ALL".to_owned(), l.clone()));
        assert(pair_views(vars@) =~= before + seq![("LANG"@, l@), ("LC_ALL"@, l@)]);
    } else {
        assert(pair_views(vars@) =~= before + Seq::empty());
    }
}

fn append_arguments(plan: &mut CommandPlan, extra: Vec<String>)
    ensures
        final(plan).model() == with_arguments(old(plan).model(), string_views(extra@)),
{
    let ghost before = string_views(plan.arguments@);
    let mut i: usize = 0;
    while i < extra.len()
        invariant
            i <= extra.len(),
            plan.program == old(plan).program,
            plan.environment == old(plan).environment,
            plan.current_dir == old(plan).current_dir,
            string_views(plan.arguments@) == before + string_views(extra@.take(i as int)),
        decreases extra.len() - i,
    {
        let ghost b = string_views(plan.arguments@);
        plan.arguments.push(extra[i].clone());
        assert(string_views(plan.arguments@) =~= b.push(extra@[i as int]@));
        assert(string_views(extra@.take(i + 1)) =~= string_views(extra@.take(i as int)).push(extra@[i as int]@));
        i = i + 1;
    }
    assert(extra@.take(extra.len() as int) =~= extra@);
    assert(final(plan).model().arguments =~= before + string_views(extra@)) by {
        assert(string_views(plan.arguments@) == before + string_views(extra@));
    }
}

fn executable_and_words(req: &LaunchRequest) -> (r: Vec<String>)
    ensures
        string_views(r@) == seq![req.executable_path@] + words(req.launch_arguments@),
{
    let mut r: Vec<String> = Vec::new();
    r.push(req.executable_path.clone());
    let ws = split_whitespace(&req.launch_arguments);
    let ghost first = string_views(r@);
    let mut i: usize = 0;
    while i < ws.len()
        invariant
            i <= ws.len(),
            first =~= seq![req.executable_path@],
            string_views(r@) == first + string_views(ws@.take(i as int)),
        decreases ws.len() - i,
    {
        let ghost b = string_views(r@);
        r.push(ws[i].clone());
        assert(string_views(r@) =~= b.push(ws@[i as int]@));
        assert(string_views(ws@.take(i + 1)) =~= string_views(ws@.take(i as int)).push(ws@[i as int]@));
        i = i + 1;
    }
    assert(ws@.take(ws.len() as int) =~= ws@);
    r
}

fn decimal_string(n: u32) -> (r: String)
    ensures
        r@ == decimal(n as nat),
{
    let mut s = String::new();
    push_decimal(&mut s, n as u64);
    assert(s@ =~= decimal(n as nat));
    s
}

/// Works out the command that starts a visual novel (or a tool in its environment).
pub fn plan_launch(req: &LaunchRequest, host: &HostContext, umu_run: Option<String>) -> (r: Result<CommandPlan, IoFailure>)
    ensures
        match r {
            Ok(plan) => launch_plan(*req, *host, umu_run) == Ok::<CommandModel, (IoErrorKind, Seq<char>)>(plan.model()),
            Err(e) => launch_plan(*req, *host, umu_run) == Err::<CommandModel, (IoErrorKind, Seq<char>)>(e.model()),
        },
{
    let env = clone_pairs(&req.launch_environment);
    let dir = match &req.working_directory {
        Some(d) => Some(d.clone()),
        None => None,
    };
    match req.launch_mode {
        LaunchMode::Native => Ok(host_command(req.executable_path.clone(), env, dir, host)),
        LaunchMode::Wine => {
            let program = match &req.wine_binary {
                Some(b) => b.clone(),
                None => "wine".to_owned(),
            };
            let mut vars = env;
            push_optional_var(&mut vars, "WINEPREFIX", &req.wine_prefix);
            push_locale_vars(&mut vars, &req.wine_locale);
            let mut plan = host_command(program, vars, dir, host);
            append_arguments(&mut plan, executable_and_words(req));
            Ok(plan)
        },
        LaunchMode::Proton => {
            let mut vars = env;
            push_optional_var(&mut vars, "WINEPREFIX", &req.wine_prefix);
            push_optional_var(&mut vars, "PROTONPATH", &req.proton_path);
            push_locale_vars(&mut vars, &req.wine_locale);
            let ghost before = pair_views(vars@);
            vars.push(("GAMEID".to_owned(), req.umu_game_id.clone()));
            assert(pair_views(vars@) =~= before + seq![("GAMEID"@, req.umu_game_id@)]);
            if host.flatpak {
                let plan = CommandPlan {
                    program: "/app/bin/umu-run".to_owned(),
                    arguments: executable_and_words(req),
                    environment: vars,
                    current_dir: dir,
                };
                Ok(plan)
            } else {
                match umu_run {
                    None => Err(IoFailure::new(IoErrorKind::NotFound, "UMU Launcher not found")),
                    Some(u) => {
                        let direct = HostContext { flatpak: false, windows: host.windows, display: host.display.clone() };
                        let mut plan = host_command(u, vars, dir, &direct);
                        append_arguments(&mut plan, executable_and_words(req));
                        Ok(plan)
                    },
                }
            }
        },
        LaunchMode::Steam => {
            let app_id = match req.steam_app_id {
                Some(id) => id,
                None => return Err(IoFailure::new(IoErrorKind::InvalidInput, "Steam App ID is not configured")),
            };
            if host.windows {
                let mut arguments: Vec<String> = Vec::new();
                arguments.push("/C".to_owned());
                arguments.push("start".to_owned());
                arguments.push(String::new());
                arguments.push(prefixed("steam://rungameid/", &decimal_string(app_id)));
                let plan = CommandPlan { program: "cmd".to_owned(), arguments, environment: Vec::new(), current_dir: None };
                assert(plan.model().arguments =~= seq!["/C"@, "start"@, ""@, "steam://rungameid/"@ + decimal(app_id as nat)]) by {
                    assert(""@ =~= Seq::<char>::empty()) by { reveal_strlit(""); }
                }
                assert(plan.model().environment =~= Seq::<(Seq<char>, Seq<char>)>::empty());
                Ok(plan)
            } else {
                let mut plan = host_command("steam".to_owned(), env, dir, host);
                let mut extra: Vec<String> = Vec::new();
                extra.push("-applaunch".to_owned());
                extra.push(decimal_string(app_id));
                assert(string_views(extra@) =~= seq!["-applaunch"@, decimal(app_id as nat)]);
                append_arguments(&mut plan, extra);
                Ok(plan)
            }
        },
    }
}

/// The application's data directory, below the platform's data directory (`None` when
/// the platform has none).
pub fn kakera_data_dir(data_dir: Option<LocalPath>) -> (r: Result<LocalPath, IoFailure>)
    ensures
        match data_dir {
            Some(d) => r is Ok && r->Ok_0@ == d@.push(ComponentModel::Normal("kakera"@)),
            None => r is Err && r->Err_0.model() == (IoErrorKind::NotFound, "Could not find an app data directory"@),
        },
{
    match data_dir {
        Some(d) => Ok(d.join_name("kakera".to_owned())),
        None => Err(IoFailure::new(IoErrorKind::NotFound, "Could not find an app data directory")),
    }
}

/// Where the Steam wrapper scripts and their requests are kept.
pub fn steam_tools_directory(kakera_dir: &LocalPath) -> (r: LocalPath)
    ensures
        r@ == kakera_dir@.push(ComponentModel::Normal("steam-tools"@)),
{
    kakera_dir.join_name("steam-tools".to_owned())
}

/// The wrapper script that Steam runs in place of a game's command.
pub fn steam_wrapper_path(tools_directory: &LocalPath) -> (r: LocalPath)
    ensures
        r@ == tools_directory@.push(ComponentModel::Normal("kakera-steam-wrapper"@)),
{
    tools_directory.join_name("kakera-steam-wrapper".to_owned())
}

/// The helper script that the wrapper starts inside the game's Proton environment.
pub fn steam_helper_path(tools_directory: &LocalPath) -> (r: LocalPath)
    ensures
        r@ == tools_directory@.push(ComponentModel::Normal("kakera-steam-helper"@)),
{
    tools_directory.join_name("kakera-steam-helper".to_owned())
}

fn named_for_app(prefix: &str, app_id: u32) -> (r: String)
    ensures
        r@ == prefix@ + decimal(app_id as nat),
{
    let mut name = prefix.to_owned();
    push_decimal(&mut name, app_id as u64);
    name
}

/// The file whose presence shows that the Steam wrapper runs the game `app_id`.
pub fn steam_tool_marker_path(tools_directory: &LocalPath, app_id: u32) -> (r: LocalPath)
    ensures
        r@ == tools_directory@.push(ComponentModel::Normal("active-"@ + decimal(app_id as nat))),
{
    tools_directory.join_name(named_for_app("active-", app_id))
}

/// How a tool is started in a Steam game's environment: as a process of its own (on
/// Windows), or queued for the running Steam wrapper by writing `contents` to `request_path`.
#[derive(Debug, PartialEq)]
pub enum ToolPlan {
    Process(CommandPlan),
    Queue { request_path: LocalPath, contents: String },
}

pub open spec fn wrapper_inactive_failure() -> (IoErrorKind, Seq<char>) {
    (IoErrorKind::NotConnected, "Steam wrapper is not active; launch the game from Steam first"@)
}

/// Works out how to start a tool inside a Steam game's Proton environment. On Windows
/// the tool runs directly, in `working_directory` (the tool's parent directory); elsewhere
/// the request goes to the Steam wrapper, which must be running the game (its marker
/// present in `tools_directory`).
pub fn launch_steam_tool(tool_path: String, working_directory: Option<String>, app_id: u32, launch_environment: Vec<(String, String)>, host: &HostContext, tools_directory: &LocalPath, wrapper_active: bool) -> (r: Result<ToolPlan, IoFailure>)
    ensures
        host.windows ==> (r matches Ok(ToolPlan::Process(plan))
            && plan.model() == host_command_model(tool_path@, pair_views(launch_environment@), option_view(working_directory), host.flatpak, option_view(host.display))),
        !host.windows && !wrapper_active ==> r is Err && r->Err_0.model() == wrapper_inactive_failure(),
        !host.windows && wrapper_active ==> (r matches Ok(ToolPlan::Queue { request_path, contents })
            && request_path@ == tools_directory@.push(ComponentModel::Normal("tool-request-"@ + decimal(app_id as nat)))
            && contents@ == tool_path@ + "\n"@),
{
    if host.windows {
        return Ok(ToolPlan::Process(host_command(tool_path, launch_environment, working_directory, host)));
    }
    if !wrapper_active {
        return Err(IoFailure::new(IoErrorKind::NotConnected, "Steam wrapper is not active; launch the game from Steam first"));
    }
    let request_path = tools_directory.join_name(named_for_app("tool-request-", app_id));
    let mut contents = tool_path;
    contents.append("\n");
    Ok(ToolPlan::Queue { request_path, contents })
}

/// The Steam launch option that runs a game through the installed wrapper script.
pub fn steam_launch_option(wrapper_path: &str) -> (r: String)
    ensures
        r@ == wrapper_path@ + " %command%"@,
{
    let mut option = wrapper_path.to_owned();
    option.append(" %command%");
    option
}

} // verus!
