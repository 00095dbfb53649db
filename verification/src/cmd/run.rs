//! What `senv run` and `senv shell` decide before the command starts.

use vstd::prelude::*;
use crate::error::SenvError;
use crate::text::{chars_of, extend_str, string_of, strs};

verus! {

/// What `senv run` reports in its machine-readable form.
#[derive(Debug, Clone)]
pub struct RunOutput {
    pub argv: Vec<String>,
    pub tier: String,
    pub policy_digest: String,
    pub exit_code: i32,
    pub wall_ms: u64,
}

/// Tools that come from the system rather than the environment, so a bare
/// name is legitimate even though it is not in the environment's `bin`.
pub open spec fn system_tools() -> Seq<Seq<char>> {
    seq!["python"@, "python3"@, "sh"@, "bash"@, "env"@, "ls"@, "cat"@, "echo"@, "make"@, "git"@]
}

pub fn is_system_tool(program: &str) -> (b: bool)
    ensures
        b == system_tools().contains(program@),
{
    let tools: [&str; 10] = ["python", "python3", "sh", "bash", "env", "ls", "cat", "echo", "make", "git"];
    assert(tools@.map_values(|o: &str| o@) =~= system_tools());
    let pv = chars_of(program);
    crate::receipt::one_of(pv.as_slice(), &tools)
}

/// The shells senv looks for, in order of preference.
pub open spec fn shell_candidates() -> Seq<Seq<char>> {
    seq!["/bin/bash"@, "/usr/bin/bash"@, "/bin/sh"@]
}

/// The first candidate shell that exists (`exists[i]` says whether
/// candidate `i` does), else `/bin/sh`.
pub open spec fn pick_shell_spec(exists: Seq<bool>) -> Seq<char> {
    if exists.len() > 0 && exists[0] {
        "/bin/bash"@
    } else if exists.len() > 1 && exists[1] {
        "/usr/bin/bash"@
    } else {
        "/bin/sh"@
    }
}

pub fn pick_shell(exists: &[bool]) -> (r: String)
    ensures
        r@ == pick_shell_spec(exists@),
{
    if exists.len() > 0 && exists[0] {
        String::from_str("/bin/bash")
    } else if exists.len() > 1 && exists[1] {
        String::from_str("/usr/bin/bash")
    } else {
        String::from_str("/bin/sh")
    }
}

/// The shell's arguments: bash without the host's rc files (they routinely
/// call tools the policy does not grant), any other shell interactive.
pub open spec fn shell_argv_spec(shell: Seq<char>) -> Seq<Seq<char>> {
    if crate::text::ends_with_seq(shell, "bash"@) {
        seq![shell, "--norc"@, "--noprofile"@, "-i"@]
    } else {
        seq![shell, "-i"@]
    }
}

pub fn shell_argv(shell: &str) -> (r: Vec<String>)
    ensures
        strs(r@) == shell_argv_spec(shell@),
{
    let sv = chars_of(shell);
    let bash = chars_of("bash");
    let mut argv: Vec<String> = Vec::new();
    argv.push(String::from_str(shell));
    if crate::text::ends_with(sv.as_slice(), bash.as_slice()) {
        argv.push(String::from_str("--norc"));
        argv.push(String::from_str("--noprofile"));
    }
    argv.push(String::from_str("-i"));
    assert(strs(argv@) =~= shell_argv_spec(shell@));
    argv
}

/// The prompt of `senv shell`, naming the project.
pub open spec fn shell_prompt_spec(root: Seq<char>) -> Seq<char> {
    "(senv:"@ + match crate::paths::file_name(root) {
        Some(n) => n,
        None => "senv"@,
    } + ") \\w $ "@
}

pub fn shell_prompt(root: &str) -> (r: String)
    ensures
        r@ == shell_prompt_spec(root@),
{
    let mut out = chars_of("(senv:");
    match crate::paths::file_name_of(root) {
        Some(n) => crate::text::extend_chars(&mut out, n.as_slice()),
        None => extend_str(&mut out, "senv"),
    }
    extend_str(&mut out, ") \\w $ ");
    string_of(out.as_slice())
}

/// The refusal for a bare program name that is neither in the environment
/// nor a system tool: senv's message names the environment, instead of a
/// bare `command not found` from inside the sandbox.
pub fn not_installed(program: &str, venv_bin: &str) -> (e: SenvError)
    ensures
        e matches SenvError::Refused { what, why, fix } && what@ == "`"@ + program@
            + "` is not installed in this environment"@ && why@ == "looked in "@ + venv_bin@
            && fix@ == "add it with `senv add "@ + program@ + "`"@,
{
    let mut what = chars_of("`");
    extend_str(&mut what, program);
    extend_str(&mut what, "` is not installed in this environment");
    let mut why = chars_of("looked in ");
    extend_str(&mut why, venv_bin);
    let mut fix = chars_of("add it with `senv add ");
    extend_str(&mut fix, program);
    extend_str(&mut fix, "`");
    SenvError::refused(string_of(what.as_slice()), string_of(why.as_slice()), string_of(fix.as_slice()))
}

} // verus!
