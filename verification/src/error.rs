//! senv's error type.
//!
//! A fail-closed refusal carries a *fix*: every refusal names the one config
//! change or command that would let the user proceed.

use vstd::prelude::*;

verus! {

/// Exit code for senv's own failures; a confined command's code passes
/// through unchanged, so this must not collide with a common one.
pub const EXIT_SENV_ERROR: i32 = 2;

#[derive(Debug)]
pub enum SenvError {
    /// No Python project (and no `senv.toml`) at or above the starting dir.
    NoProject { start: String },
    /// I/O, with the path that failed.
    Io { path: String, message: String },
    /// A malformed or invalid `senv.toml`.
    Config { path: String, message: String },
    /// The sandbox engine refused, or could not be applied.
    Sandbox(String),
    /// A fail-closed refusal, with the change that would allow it.
    Refused { what: String, why: String, fix: String },
    /// `uv` is missing or unusable.
    Uv(String),
    /// Anything else senv itself got wrong.
    Internal(String),
}

impl SenvError {
    pub fn io(path: String, message: String) -> (e: SenvError)
        ensures
            e == (SenvError::Io { path, message }),
    {
        SenvError::Io { path, message }
    }

    pub fn config(path: String, message: String) -> (e: SenvError)
        ensures
            e == (SenvError::Config { path, message }),
    {
        SenvError::Config { path, message }
    }

    pub fn refused(what: String, why: String, fix: String) -> (e: SenvError)
        ensures
            e == (SenvError::Refused { what, why, fix }),
    {
        SenvError::Refused { what, why, fix }
    }

    pub fn internal(message: String) -> (e: SenvError)
        ensures
            e == SenvError::Internal(message),
    {
        SenvError::Internal(message)
    }

    /// The remediation line, when there is one.
    pub open spec fn fix_spec(&self) -> Option<Seq<char>> {
        match self {
            SenvError::Refused { fix, .. } => Some(fix@),
            SenvError::NoProject { .. } => Some(
                "run `senv init` here, or cd into a project with a pyproject.toml"@,
            ),
            SenvError::Uv(_) => Some("install uv: curl -LsSf https://astral.sh/uv/install.sh | sh"@),
            _ => None,
        }
    }

    /// The remediation line, when there is one. Printed indented under the
    /// error so a user can copy it.
    pub fn fix(&self) -> (r: Option<String>)
        ensures
            r matches Some(f) ==> self.fix_spec() == Some(f@),
            r is None ==> self.fix_spec() is None,
    {
        match self {
            SenvError::Refused { fix, .. } => Some(fix.clone()),
            SenvError::NoProject { .. } => Some(
                String::from_str("run `senv init` here, or cd into a project with a pyproject.toml"),
            ),
            SenvError::Uv(_) => Some(
                String::from_str("install uv: curl -LsSf https://astral.sh/uv/install.sh | sh"),
            ),
            _ => None,
        }
    }

    /// The text of the error, as senv prints it after `senv: `.
    pub open spec fn message_spec(&self) -> Seq<char> {
        match self {
            SenvError::NoProject { start } => "no Python project found at or above "@ + start@
                + "\n  senv looks for senv.toml, pyproject.toml, or uv.lock"@,
            SenvError::Io { path, message } => path@ + ": "@ + message@,
            SenvError::Config { path, message } => path@ + ": "@ + message@,
            SenvError::Sandbox(m) => m@,
            SenvError::Refused { what, why, .. } => what@ + "\n  "@ + why@,
            SenvError::Uv(m) => m@,
            SenvError::Internal(m) => m@,
        }
    }

    /// The text of the error.
    pub fn message(&self) -> (r: String)
        ensures
            r@ == self.message_spec(),
    {
        match self {
            SenvError::NoProject { start } => {
                let mut s = String::from_str("no Python project found at or above ");
                s.append(start.as_str());
                s.append("\n  senv looks for senv.toml, pyproject.toml, or uv.lock");
                s
            },
            SenvError::Io { path, message } | SenvError::Config { path, message } => {
                let mut s = path.clone();
                s.append(": ");
                s.append(message.as_str());
                s
            },
            SenvError::Sandbox(m) | SenvError::Uv(m) | SenvError::Internal(m) => m.clone(),
            SenvError::Refused { what, why, .. } => {
                let mut s = what.clone();
                s.append("\n  ");
                s.append(why.as_str());
                s
            },
        }
    }
}

/// How senv reports an error, on standard error: `senv: ` and the message,
/// then the fix, when there is one, indented under it.
pub open spec fn report_lines_spec(e: SenvError) -> Seq<(bool, Seq<char>)> {
    seq![crate::lines::err("senv: "@ + e.message_spec())] + match e.fix_spec() {
        Some(f) => seq![crate::lines::err("  \u{2192} "@ + crate::exec::wrap_spec(f, 74, 4))],
        None => seq![],
    }
}

impl SenvError {
    /// The error as printed.
    pub fn report_lines(&self) -> (r: Vec<crate::lines::Line>)
        ensures
            crate::lines::lines_view(r@) == report_lines_spec(*self),
    {
        let mut lines: Vec<crate::lines::Line> = Vec::new();
        let m = self.message();
        crate::lines::say(&mut lines, true, "senv: ", m.as_str());
        match self.fix() {
            Some(f) => {
                let w = crate::exec::wrap(f.as_str(), 74, 4);
                crate::lines::say(&mut lines, true, "  \u{2192} ", w.as_str());
            },
            None => {},
        }
        assert(crate::lines::lines_view(lines@) =~= report_lines_spec(*self));
        lines
    }
}

pub type Result<T> = core::result::Result<T, SenvError>;

/// A file senv parses on every command, refused for an implausible size:
/// it lives where sandboxed code can write, so a huge one is refused rather
/// than loaded.
pub open spec fn too_large_spec(e: SenvError, path: Seq<char>, len: nat) -> bool {
    e matches SenvError::Refused { what, why, fix } && what@ == path + " is "@
        + crate::util::decimal(len / 1024 / 1024) + " MiB, which is too large to be a real one"@
        && why@
        == "senv parses this file on every command, and it lives somewhere code running under senv can write \u{2014} so an implausible size is refused rather than loaded."@
        && fix@ == "inspect "@ + path + " and replace it with the file you meant"@
}

pub fn too_large(path: &str, len: u64) -> (e: SenvError)
    ensures
        too_large_spec(e, path@, len as nat),
{
    let mut what = crate::text::chars_of(path);
    crate::text::extend_str(&mut what, " is ");
    let mib = crate::util::decimal_chars(len / 1024 / 1024);
    crate::text::extend_chars(&mut what, mib.as_slice());
    crate::text::extend_str(&mut what, " MiB, which is too large to be a real one");
    let mut fix = crate::text::chars_of("inspect ");
    crate::text::extend_str(&mut fix, path);
    crate::text::extend_str(&mut fix, " and replace it with the file you meant");
    SenvError::refused(
        crate::text::string_of(what.as_slice()),
        String::from_str(
            "senv parses this file on every command, and it lives somewhere code running under senv can write \u{2014} so an implausible size is refused rather than loaded.",
        ),
        crate::text::string_of(fix.as_slice()),
    )
}

} // verus!
