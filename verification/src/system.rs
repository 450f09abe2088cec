use vstd::prelude::*;

use crate::launcher::{CommandModel, CommandPlan};
use crate::text::{chars_of, starts_with, starts_with_chars, string_of, trim_chars, trimmed};

verus! {

/// The shell script that prints where a command named by its first argument lives.
pub open spec fn lookup_script() -> Seq<char> {
    "command -v -- \"$1\""@
}

/// The command that looks a command up on the host: through `flatpak-spawn --host`
/// inside Flatpak, through a login shell otherwise.
pub open spec fn host_lookup_model(command_name: Seq<char>, flatpak: bool) -> CommandModel {
    CommandModel {
        program: if flatpak { "flatpak-spawn"@ } else { "sh"@ },
        arguments: if flatpak {
            seq!["--host"@, "sh"@, "-c"@, lookup_script(), "sh"@, command_name]
        } else {
            seq!["-lc"@, lookup_script(), "sh"@, command_name]
        },
        environment: Seq::empty(),
        current_dir: None,
    }
}

/// The command that finds the absolute path of `command_name` on the host.
pub fn host_lookup_command(command_name: String, flatpak: bool) -> (r: CommandPlan)
    ensures
        r.model() == host_lookup_model(command_name@, flatpak),
{
    let mut arguments: Vec<String> = Vec::new();
    let program = if flatpak {
        arguments.push("--host".to_owned());
        arguments.push("sh".to_owned());
        arguments.push("-c".to_owned());
        "flatpak-spawn".to_owned()
    } else {
        arguments.push("-lc".to_owned());
        "sh".to_owned()
    };
    arguments.push("command -v -- \"$1\"".to_owned());
    arguments.push("sh".to_owned());
    arguments.push(command_name);
    let plan = CommandPlan { program, arguments, environment: Vec::new(), current_dir: None };
    assert(plan.model().arguments =~= host_lookup_model(command_name@, flatpak).arguments);
    assert(plan.model().environment =~= Seq::<(Seq<char>, Seq<char>)>::empty());
    plan
}

/// What a host command produced: whether it could be run and exited successfully, and
/// its standard output when that is valid UTF-8.
#[derive(Debug, PartialEq)]
pub struct CommandOutput {
    pub succeeded: bool,
    pub stdout: Option<String>,
}

/// The path that a successful lookup printed, trimmed; `None` when the lookup could not
/// run, failed, printed invalid text or printed nothing but white space.
pub open spec fn looked_up_path(output: Option<CommandOutput>) -> Option<Seq<char>> {
    match output {
        Some(CommandOutput { succeeded: true, stdout: Some(text) }) =>
            if trimmed(text@).len() == 0 { None } else { Some(trimmed(text@)) },
        _ => None,
    }
}

/// Reads the absolute path of a command from the output of `host_lookup_command`.
pub fn find_host_command(output: Option<CommandOutput>) -> (r: Option<String>)
    ensures
        match r {
            Some(p) => looked_up_path(output) == Some(p@),
            None => looked_up_path(output) is None,
        },
{
    match output {
        Some(CommandOutput { succeeded: true, stdout: Some(text) }) => {
            let t = trim_chars(&chars_of(text.as_str()));
            if t.len() == 0 {
                None
            } else {
                Some(string_of(&t))
            }
        },
        _ => None,
    }
}

/// The command that prints the host's home directory from inside Flatpak.
pub fn host_home_command() -> (r: CommandPlan)
    ensures
        r.model() == (CommandModel {
            program: "flatpak-spawn"@,
            arguments: seq!["--host"@, "sh"@, "-c"@, "printf %s \"$HOME\""@],
            environment: Seq::empty(),
            current_dir: None,
        }),
{
    let mut arguments: Vec<String> = Vec::new();
    arguments.push("--host".to_owned());
    arguments.push("sh".to_owned());
    arguments.push("-c".to_owned());
    arguments.push("printf %s \"$HOME\"".to_owned());
    let plan = CommandPlan { program: "flatpak-spawn".to_owned(), arguments, environment: Vec::new(), current_dir: None };
    assert(plan.model().arguments =~= seq!["--host"@, "sh"@, "-c"@, "printf %s \"$HOME\""@]);
    assert(plan.model().environment =~= Seq::<(Seq<char>, Seq<char>)>::empty());
    plan
}

/// Where the home directory of the host is looked up.
#[derive(Debug, PartialEq)]
pub enum HomeLookup {
    /// Outside Flatpak: the value of `HOME`, if it is set.
    Environment(Option<String>),
    /// Inside Flatpak: what `host_home_command` produced, if it could be run.
    Host(Option<CommandOutput>),
}

/// The host's home directory: `HOME` outside Flatpak; inside it, what the host printed,
/// unless the command failed, printed invalid text or printed nothing.
pub open spec fn home_of(lookup: HomeLookup) -> Option<Seq<char>> {
    match lookup {
        HomeLookup::Environment(home) => match home {
            Some(h) => Some(h@),
            None => None,
        },
        HomeLookup::Host(Some(CommandOutput { succeeded: true, stdout: Some(text) })) =>
            if text@.len() == 0 { None } else { Some(text@) },
        HomeLookup::Host(_) => None,
    }
}

/// The real home directory, also when running inside Flatpak.
pub fn host_home_dir(lookup: HomeLookup) -> (r: Option<String>)
    ensures
        match r {
            Some(h) => home_of(lookup) == Some(h@),
            None => home_of(lookup) is None,
        },
{
    match lookup {
        HomeLookup::Environment(home) => home,
        HomeLookup::Host(Some(CommandOutput { succeeded: true, stdout: Some(text) })) => {
            if text.as_str().is_empty() {
                None
            } else {
                Some(text)
            }
        },
        HomeLookup::Host(_) => None,
    }
}

/// The command that opens a folder in the desktop's file manager.
pub fn open_folder_command(path: String, windows: bool) -> (r: CommandPlan)
    ensures
        r.model() == (CommandModel {
            program: if windows { "explorer"@ } else { "xdg-open"@ },
            arguments: seq![path@],
            environment: Seq::empty(),
            current_dir: None,
        }),
{
    let program = if windows { "explorer".to_owned() } else { "xdg-open".to_owned() };
    let mut arguments: Vec<String> = Vec::new();
    arguments.push(path);
    let plan = CommandPlan { program, arguments, environment: Vec::new(), current_dir: None };
    assert(plan.model().arguments =~= seq![path@]);
    assert(plan.model().environment =~= Seq::<(Seq<char>, Seq<char>)>::empty());
    plan
}

/// Whether a path lies in the Flatpak document portal, `/run/flatpak/doc/`.
pub fn is_flatpak_document_portal_path(path: &str) -> (r: bool)
    ensures
        r == starts_with(path@, "/run/flatpak/doc/"@),
{
    let prefix = chars_of("/run/flatpak/doc/");
    starts_with_chars(&chars_of(path), &prefix)
}

} // verus!
