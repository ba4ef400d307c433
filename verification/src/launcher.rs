//! How the game client is started for a profile and a character: the program, its arguments
//! and its environment. Starting the process is left to the caller.
//!
//! Two parts of the client's own launch contract are used: the `--profile=<name>` argument,
//! which selects an isolated settings profile, and the `JX_SESSION_ID` / `JX_CHARACTER_ID` /
//! `JX_DISPLAY_NAME` environment variables, which log it into a character.

use vstd::prelude::*;
use crate::accounts::{uuid_string, uuid_text, Profile};
use crate::session::LaunchSession;
use crate::text::concat_str;

verus! {

/// Failure to start the client.
#[derive(Debug, Clone, PartialEq, Eq)]
pub enum LaunchError {
    /// The process could not be spawned; the text is the operating system's message.
    Spawn(String),
}

impl LaunchError {
    /// The text that describes the failure.
    pub fn message(&self) -> (r: String)
        ensures
            r@ == match self {
                LaunchError::Spawn(e) => "failed to spawn RuneLite: "@ + e@,
            },
    {
        match self {
            LaunchError::Spawn(e) => concat_str("failed to spawn RuneLite: ", e.as_str()),
        }
    }
}

/// Where and how to run the client.
#[derive(Debug, Clone, PartialEq, Eq)]
pub enum LaunchTarget {
    /// The client's launcher executable (it bundles its own Java runtime).
    WindowsExe(String),
    /// Any platform with Java on `PATH`: `java -jar <path>`.
    Jar(String),
}

/// A process to start: program, arguments and extra environment variables.
#[derive(Debug, Clone, PartialEq, Eq)]
pub struct LaunchCommand {
    pub program: String,
    pub args: Vec<String>,
    pub envs: Vec<(String, String)>,
}

/// The views of a list of strings.
pub open spec fn strings_view(v: Seq<String>) -> Seq<Seq<char>> {
    Seq::new(v.len(), |i: int| v[i]@)
}

/// The views of a list of name/value pairs.
pub open spec fn pairs_view(v: Seq<(String, String)>) -> Seq<(Seq<char>, Seq<char>)> {
    Seq::new(v.len(), |i: int| (v[i].0@, v[i].1@))
}

impl LaunchTarget {
    /// The program and arguments that run this target, with no extra environment.
    pub fn into_command(self) -> (r: LaunchCommand)
        ensures
            match self {
                LaunchTarget::WindowsExe(path) => r.program@ == path@ && r.args@.len() == 0,
                LaunchTarget::Jar(path) => r.program@ == "java"@ && strings_view(r.args@) == seq![
                    "-jar"@,
                    path@,
                ],
            },
            r.envs@.len() == 0,
    {
        match self {
            LaunchTarget::WindowsExe(path) => LaunchCommand {
                program: path,
                args: Vec::new(),
                envs: Vec::new(),
            },
            LaunchTarget::Jar(path) => {
                let mut args: Vec<String> = Vec::new();
                args.push(String::from_str("-jar"));
                args.push(path);
                assert(strings_view(args@) =~= seq!["-jar"@, args@[1]@]);
                LaunchCommand { program: String::from_str("java"), args, envs: Vec::new() }
            },
        }
    }
}

/// The command that starts `target` for `profile`, logged into `session`'s character: the
/// target's command with `--profile=<profile id>` appended and the three session variables set.
pub fn launch_command(target: LaunchTarget, profile: &Profile, session: &LaunchSession) -> (r:
    LaunchCommand)
    ensures
        r.program@ == target.into_command_spec().0,
        strings_view(r.args@) == target.into_command_spec().1.push(
            "--profile="@ + uuid_text(profile.id),
        ),
        pairs_view(r.envs@) == seq![
            ("JX_SESSION_ID"@, session.session_id@),
            ("JX_CHARACTER_ID"@, session.account_id@),
            ("JX_DISPLAY_NAME"@, session.display_name@),
        ],
{
    let ghost spec_cmd = target.into_command_spec();
    let mut cmd = target.into_command();
    assert(cmd.program@ == spec_cmd.0);
    assert(strings_view(cmd.args@) =~= spec_cmd.1);
    let mut arg = String::from_str("--profile=");
    let id = uuid_string(profile.id);
    arg.append(id.as_str());
    let ghost before = cmd.args@;
    cmd.args.push(arg);
    assert(strings_view(cmd.args@) =~= strings_view(before).push("--profile="@ + uuid_text(profile.id)));
    let mut envs: Vec<(String, String)> = Vec::new();
    envs.push((String::from_str("JX_SESSION_ID"), session.session_id.clone()));
    envs.push((String::from_str("JX_CHARACTER_ID"), session.account_id.clone()));
    envs.push((String::from_str("JX_DISPLAY_NAME"), session.display_name.clone()));
    assert(pairs_view(envs@) =~= seq![
        ("JX_SESSION_ID"@, session.session_id@),
        ("JX_CHARACTER_ID"@, session.account_id@),
        ("JX_DISPLAY_NAME"@, session.display_name@),
    ]);
    cmd.envs = envs;
    cmd
}

impl LaunchTarget {
    /// The program and arguments of this target.
    pub open spec fn into_command_spec(self) -> (Seq<char>, Seq<Seq<char>>) {
        match self {
            LaunchTarget::WindowsExe(path) => (path@, Seq::empty()),
            LaunchTarget::Jar(path) => ("java"@, seq!["-jar"@, path@]),
        }
    }
}

} // verus!
