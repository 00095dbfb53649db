//! What the install-phase commands decide: the manifest `init` writes, how
//! uv's failures are recognised, and the arguments uv is given.

use vstd::prelude::*;
use crate::receipt::{Denial, DenialView, VerdictView, denial_views};
use crate::text::{
    chars_of, contains, contains_seq, extend_chars, extend_str, lines, opt_str, opt_str_eq, slice_of,
    split_lines, starts_with, starts_with_seq, string_of, strip_prefix_all, strs, trim, trim_seq,
    trim_start_matches,
};
use crate::toml_value::toml_document;
use crate::uv::{Staging, staging_for, staging_reason};
use crate::lines::{Line, emit, err, lines_view, out, push_wrapped, say, signed_decimal, wrapped_lines};
use crate::util::join_seq;

verus! {

// ── init ───────────────────────────────────────────────────────────────────

/// The character a project name keeps in a generated manifest, or `-`.
pub open spec fn manifest_name_char(c: char) -> char {
    if crate::text::is_ascii_alnum(c) || c == '-' || c == '_' || c == '.' {
        c
    } else {
        '-'
    }
}

/// A minimal application-style manifest for the project at `root`, with no
/// `[build-system]`: uv then does not build the project during sync, which
/// keeps `senv sync` working with the project read-only.
pub open spec fn new_manifest_spec(root: Seq<char>, python: Option<Seq<char>>) -> Seq<char> {
    let name = match crate::paths::file_name(root) {
        Some(n) => n,
        None => "app"@,
    }.map_values(|c: char| manifest_name_char(c));
    let floor = match python {
        Some(p) => ">="@ + p,
        None => ">=3.9"@,
    };
    "[project]\nname = \""@ + name + "\"\nversion = \"0.1.0\"\nrequires-python = \""@ + floor
        + "\"\ndependencies = []\n"@
}

pub fn new_manifest(root: &str, python: Option<&str>) -> (r: String)
    ensures
        r@ == new_manifest_spec(root@, crate::policy::home_view(python)),
{
    let raw = match crate::paths::file_name_of(root) {
        Some(n) => n,
        None => chars_of("app"),
    };
    let mut name: Vec<char> = Vec::new();
    let mut i: usize = 0;
    while i < raw.len()
        invariant
            i <= raw@.len(),
            name@ == raw@.take(i as int).map_values(|c: char| manifest_name_char(c)),
        decreases raw.len() - i,
    {
        let c = raw[i];
        let k = if crate::text::ascii_alnum(c) || c == '-' || c == '_' || c == '.' { c } else { '-' };
        name.push(k);
        assert(raw@.take(i + 1).map_values(|c: char| manifest_name_char(c)) =~= raw@.take(i as int).map_values(|c: char| manifest_name_char(c)).push(manifest_name_char(raw@[i as int])));
        i = i + 1;
    }
    assert(raw@.take(raw@.len() as int) =~= raw@);
    let mut out = chars_of("[project]\nname = \"");
    extend_chars(&mut out, name.as_slice());
    extend_str(&mut out, "\"\nversion = \"0.1.0\"\nrequires-python = \"");
    match python {
        Some(p) => {
            extend_str(&mut out, ">=");
            extend_str(&mut out, p);
        },
        None => extend_str(&mut out, ">=3.9"),
    }
    extend_str(&mut out, "\"\ndependencies = []\n");
    string_of(out.as_slice())
}

// ── recognising uv's failures ──────────────────────────────────────────────

/// uv refused because no suitable Python interpreter exists on this host.
pub open spec fn needs_interpreter_spec(output: Seq<char>) -> bool {
    contains_seq(output, "interpreter"@) && (contains_seq(output, "No interpreter found"@)
        || contains_seq(output, "No virtual environment found"@) || contains_seq(
        output,
        "can be installed with"@,
    ))
}

fn has(output: &[char], m: &str) -> (b: bool)
    ensures
        b == contains_seq(output@, m@),
{
    let mv = chars_of(m);
    contains(output, mv.as_slice())
}

pub fn needs_interpreter(output: &str) -> (b: bool)
    ensures
        b == needs_interpreter_spec(output@),
{
    let o = chars_of(output);
    has(o.as_slice(), "interpreter") && (has(o.as_slice(), "No interpreter found") || has(
        o.as_slice(),
        "No virtual environment found",
    ) || has(o.as_slice(), "can be installed with"))
}

/// uv refused because the lockfile no longer matches the manifest —
/// deliberately specific, since a bare "does not exist" appears in plenty of
/// unrelated messages.
pub open spec fn lock_is_stale_spec(output: Seq<char>) -> bool {
    ||| contains_seq(output, "needs to be updated"@)
    ||| contains_seq(output, "not up-to-date"@)
    ||| contains_seq(output, "Unable to find lockfile"@)
    ||| contains_seq(output, "lockfile does not exist"@)
}

pub fn lock_is_stale(output: &str) -> (b: bool)
    ensures
        b == lock_is_stale_spec(output@),
{
    let o = chars_of(output);
    has(o.as_slice(), "needs to be updated") || has(o.as_slice(), "not up-to-date") || has(
        o.as_slice(),
        "Unable to find lockfile",
    ) || has(o.as_slice(), "lockfile does not exist")
}

pub open spec fn read_only_hint_text() -> Seq<char> {
    "the build backend tried to write into your project directory, which the install boundary keeps read-only. If that write is legitimate, set [install] project-writable = true in senv.toml — a dependency's build backend will then run with write access to your source."@
}

/// A build backend that could not write into the read-only project tree.
pub open spec fn denied_write(output: Seq<char>) -> bool {
    ||| contains_seq(output, "Read-only file system"@)
    ||| (contains_seq(output, "Permission denied"@) && contains_seq(output, "egg-info"@))
    ||| contains_seq(output, "Permission denied: '"@)
}

/// The one predictable false refusal of the install boundary gets a named
/// fix instead of a raw traceback.
pub fn read_only_project_hint(output: &str) -> (r: Option<String>)
    ensures
        r is Some <==> denied_write(output@),
        r matches Some(h) ==> h@ == read_only_hint_text(),
{
    let o = chars_of(output);
    let denied = has(o.as_slice(), "Read-only file system") || (has(o.as_slice(), "Permission denied")
        && has(o.as_slice(), "egg-info")) || has(o.as_slice(), "Permission denied: '");
    if !denied {
        return None;
    }
    Some(String::from_str(
        "the build backend tried to write into your project directory, which the install boundary keeps read-only. If that write is legitimate, set [install] project-writable = true in senv.toml — a dependency's build backend will then run with write access to your source.",
    ))
}

// ── arguments ──────────────────────────────────────────────────────────────

/// `uv sync` for the given binary: `--frozen` or `--locked`, then whatever
/// the user passed.
pub open spec fn sync_argv_spec(uv: Seq<char>, frozen: bool, extra: Seq<Seq<char>>) -> Seq<Seq<char>> {
    seq![uv, "sync"@, if frozen { "--frozen"@ } else { "--locked"@ }] + extra
}

/// The dependencies-only pass of a sync: where every third-party build
/// backend runs, with the project read-only.
pub open spec fn deps_argv_spec(uv: Seq<char>, frozen: bool, extra: Seq<Seq<char>>) -> Seq<Seq<char>> {
    seq![uv, "sync"@, if frozen { "--frozen"@ } else { "--locked"@ }, "--no-install-project"@] + extra
}

/// The two argument lists of a sync: the project, and its dependencies alone.
pub fn sync_argvs(uv: &str, frozen: bool, extra: &[String]) -> (r: (Vec<String>, Vec<String>))
    ensures
        strs(r.0@) == sync_argv_spec(uv@, frozen, strs(extra@)),
        strs(r.1@) == deps_argv_spec(uv@, frozen, strs(extra@)),
{
    let mode = if frozen { "--frozen" } else { "--locked" };
    let mut argv: Vec<String> = Vec::new();
    argv.push(String::from_str(uv));
    argv.push(String::from_str("sync"));
    argv.push(String::from_str(mode));
    let mut deps = crate::text::clone_strings(argv.as_slice());
    deps.push(String::from_str("--no-install-project"));
    let ghost a0 = argv@;
    let ghost d0 = deps@;
    let mut e1 = crate::text::clone_strings(extra);
    let mut e2 = crate::text::clone_strings(extra);
    argv.append(&mut e1);
    deps.append(&mut e2);
    assert(strs(argv@) =~= sync_argv_spec(uv@, frozen, strs(extra@)));
    assert(strs(deps@) =~= deps_argv_spec(uv@, frozen, strs(extra@)));
    (argv, deps)
}

/// `uv add` / `uv remove` for the given packages, never syncing by itself:
/// resolving and installing are separate phases.
pub open spec fn mutate_argv_spec(uv: Seq<char>, verb: Seq<char>, dev: bool, group: Option<Seq<char>>, packages: Seq<Seq<char>>) -> Seq<Seq<char>> {
    seq![uv, verb, "--no-sync"@] + (if dev { seq!["--dev"@] } else { seq![] }) + match group {
        Some(g) => seq!["--group"@, g],
        None => seq![],
    } + packages
}

pub fn mutate_argv(uv: &str, verb: &str, dev: bool, group: Option<&str>, packages: &[String]) -> (r: Vec<String>)
    ensures
        strs(r@) == mutate_argv_spec(uv@, verb@, dev, crate::policy::home_view(group), strs(packages@)),
{
    let mut argv: Vec<String> = Vec::new();
    argv.push(String::from_str(uv));
    argv.push(String::from_str(verb));
    argv.push(String::from_str("--no-sync"));
    if dev {
        argv.push(String::from_str("--dev"));
    }
    match group {
        Some(g) => {
            argv.push(String::from_str("--group"));
            argv.push(String::from_str(g));
        },
        None => {},
    }
    let ghost a0 = argv@;
    let mut p = crate::text::clone_strings(packages);
    argv.append(&mut p);
    assert(strs(argv@) =~= mutate_argv_spec(uv@, verb@, dev, crate::policy::home_view(group), strs(packages@)));
    argv
}

/// The targets a finished install-phase command lists as blocked: the
/// suggestable ones only.
pub open spec fn blocked_targets(ds: Seq<DenialView>) -> Seq<Seq<char>>
    decreases ds.len(),
{
    if ds.len() == 0 {
        seq![]
    } else {
        let rest = blocked_targets(ds.drop_last());
        if ds.last().verdict is Suggestable {
            rest.push(ds.last().target)
        } else {
            rest
        }
    }
}

pub fn blocked(denials: &Vec<Denial>) -> (r: Vec<String>)
    ensures
        strs(r@) == blocked_targets(denial_views(denials@)),
{
    let ghost ds = denial_views(denials@);
    let mut out: Vec<String> = Vec::new();
    let mut i: usize = 0;
    while i < denials.len()
        invariant
            i <= denials@.len(),
            ds == denial_views(denials@),
            strs(out@) == blocked_targets(ds.take(i as int)),
        decreases denials.len() - i,
    {
        assert(ds.take(i + 1).drop_last() =~= ds.take(i as int));
        assert(ds.take(i + 1).last() == denials@[i as int]@);
        if denials[i].verdict.is_suggestable() {
            let ghost before = out@;
            out.push(denials[i].target.clone());
            assert(strs(out@) =~= strs(before).push(denials@[i as int].target@));
        }
        i = i + 1;
    }
    assert(ds.take(denials@.len() as int) =~= ds);
    out
}

// ── interpreters ───────────────────────────────────────────────────────────

/// The interpreter a project asks for: `[env] python`, else the first line
/// of `.python-version` (`version_file`), trimmed, if it is version-shaped.
/// A value that is not is dropped rather than forwarded: it becomes an
/// argument to `uv python install`.
pub open spec fn wanted_python_spec(configured: Option<Seq<char>>, version_file: Option<Seq<char>>) -> Option<Seq<char>> {
    match configured {
        Some(v) => Some(v),
        None => match version_file {
            None => None,
            Some(text) => {
                let ls = crate::text::lines(text);
                if ls.len() == 0 {
                    None
                } else {
                    let first = crate::text::trim_seq(ls[0]);
                    if first.len() == 0 || crate::config::python_request_error(first) is Some {
                        None
                    } else {
                        Some(first)
                    }
                }
            },
        },
    }
}

pub fn wanted_python(configured: Option<&str>, version_file: Option<&str>) -> (r: Option<String>)
    ensures
        match r {
            Some(v) => wanted_python_spec(crate::policy::home_view(configured), crate::policy::home_view(version_file)) == Some(v@),
            None => wanted_python_spec(crate::policy::home_view(configured), crate::policy::home_view(version_file)) is None,
        },
{
    if let Some(v) = configured {
        return Some(String::from_str(v));
    }
    let text = match version_file {
        Some(t) => t,
        None => return None,
    };
    let tv = chars_of(text);
    let ls = crate::text::split_lines(tv.as_slice());
    if ls.len() == 0 {
        return None;
    }
    let first = crate::text::trim(ls[0].as_slice());
    if first.len() == 0 {
        return None;
    }
    let fs = string_of(first.as_slice());
    match crate::config::validate_python_request(fs.as_str()) {
        Ok(()) => Some(fs),
        Err(_) => None,
    }
}

/// Why a `.python-version` is not forwarded, when it is dropped: no
/// `[env] python`, and a first line that is not blank but not a version.
/// uv reads the file itself and reports a bad value in its own words; senv
/// only declines to pass it on, with a warning.
pub open spec fn dropped_version_reason(configured: Option<Seq<char>>, version_file: Option<Seq<char>>) -> Option<Seq<char>> {
    match (configured, version_file) {
        (None, Some(text)) => {
            let ls = crate::text::lines(text);
            if ls.len() == 0 {
                None
            } else {
                let first = crate::text::trim_seq(ls[0]);
                if first.len() == 0 {
                    None
                } else {
                    crate::config::python_request_error(first)
                }
            }
        },
        _ => None,
    }
}

/// The warning for a dropped `.python-version`, on standard error.
pub fn python_version_warning(configured: Option<&str>, version_file: Option<&str>) -> (r: Vec<Line>)
    ensures
        lines_view(r@) == match dropped_version_reason(
            crate::policy::home_view(configured),
            crate::policy::home_view(version_file),
        ) {
            Some(why) => seq![err("warning: ignoring .python-version \u{2014} "@ + crate::exec::wrap_spec(why, 74, 9))],
            None => Seq::<(bool, Seq<char>)>::empty(),
        },
{
    let mut lines: Vec<Line> = Vec::new();
    if configured.is_some() {
        return lines;
    }
    let text = match version_file {
        Some(t) => t,
        None => return lines,
    };
    let tv = chars_of(text);
    let ls = crate::text::split_lines(tv.as_slice());
    if ls.len() == 0 {
        return lines;
    }
    let first = crate::text::trim(ls[0].as_slice());
    if first.len() == 0 {
        return lines;
    }
    let fs = string_of(first.as_slice());
    match crate::config::validate_python_request(fs.as_str()) {
        Ok(()) => {},
        Err(why) => {
            let w = crate::exec::wrap(why.as_str(), 74, 9);
            say(&mut lines, true, "warning: ignoring .python-version \u{2014} ", w.as_str());
        },
    }
    lines
}

// ── the sequence of a sync ──────────────────────────────────────────────────

/// Which confined run `senv sync` is waiting on.
#[derive(Debug, Clone, Copy, PartialEq, Eq, Structural)]
pub enum SyncStage {
    /// Pass 1: the dependencies alone, with the project read-only.
    Deps,
    /// Pass 2: the project itself.
    Project,
    /// Downloading an interpreter in the provisioning phase.
    Provisioning,
    /// Re-resolving a stale lockfile.
    Relocking,
    /// The project's own build, retried with the project writable.
    WritableRetry,
    /// Nothing more to run.
    Done,
}

/// Which repairs have been considered: each is tried at most once, in this
/// order.
#[derive(Debug, Clone, Copy, PartialEq, Eq, Structural)]
pub enum SyncRound {
    First,
    AfterProvision,
    AfterRelock,
}

/// What `senv sync` does next.
#[derive(Debug, Clone, Copy, PartialEq, Eq, Structural)]
pub enum SyncAction {
    RunDeps,
    RunProject,
    Provision,
    Relock,
    /// Re-run the project's own build with the project writable.
    RunWritable,
    Finish,
}

/// What came back from the action.
pub enum SyncEvent {
    /// A confined run finished: whether it succeeded, and its output.
    Ran { ok: bool, output: String },
    /// Provisioning exited with this code, or failed with this message.
    Provisioned(core::result::Result<i32, String>),
    /// Re-locking exited with this code and these warnings.
    Relocked { exit_code: i32, warnings: Vec<String> },
}

/// The state of a sync between runs.
pub struct SyncMachine {
    pub stage: SyncStage,
    pub round: SyncRound,
    pub frozen: bool,
    /// The last dependencies pass succeeded.
    pub deps_ok: bool,
    /// The last run succeeded.
    pub ok: bool,
    /// The last failure asked for an interpreter.
    pub interp: bool,
    /// The last failure was a stale lockfile.
    pub stale: bool,
    /// The last failure was a build backend refused a write to the project.
    pub denied: bool,
    /// The result comes from the run with the project writable.
    pub writable: bool,
    pub warnings: Vec<String>,
}

pub open spec fn own_backend_warning() -> Seq<char> {
    "your project's own build backend ran with write access to your source; dependency build backends did not"@
}

pub open spec fn interpreter_warning(e: Seq<char>) -> Seq<char> {
    "could not install a Python interpreter: "@ + e
}

/// After a run, the next repair to try, in order: an interpreter (once,
/// first), a re-lock (once, unless frozen), then, only when the dependencies
/// pass succeeded, the project's own build with the project writable.
pub open spec fn decided(
    round: SyncRound,
    frozen: bool,
    deps_ok: bool,
    ok: bool,
    interp: bool,
    stale: bool,
    denied: bool,
) -> (SyncStage, SyncRound, SyncAction) {
    if round == SyncRound::First && !ok && interp {
        (SyncStage::Provisioning, SyncRound::First, SyncAction::Provision)
    } else if round != SyncRound::AfterRelock && !ok && stale && !frozen {
        (SyncStage::Relocking, SyncRound::AfterProvision, SyncAction::Relock)
    } else if deps_ok && !ok && denied {
        (SyncStage::WritableRetry, SyncRound::AfterRelock, SyncAction::RunWritable)
    } else {
        (SyncStage::Done, SyncRound::AfterRelock, SyncAction::Finish)
    }
}

/// The event expected at a stage.
pub open spec fn expects(stage: SyncStage, e: SyncEvent) -> bool {
    match stage {
        SyncStage::Deps | SyncStage::Project | SyncStage::WritableRetry => e is Ran,
        SyncStage::Provisioning => e is Provisioned,
        SyncStage::Relocking => e is Relocked,
        SyncStage::Done => false,
    }
}

impl SyncMachine {
    /// A sync about to run its first pass, with the warnings of any lock that
    /// had to be produced first.
    pub fn start(frozen: bool, warnings: Vec<String>) -> (r: (SyncMachine, SyncAction))
        ensures
            r.0.stage == SyncStage::Deps && r.0.round == SyncRound::First && r.0.frozen == frozen,
            !r.0.deps_ok && !r.0.ok && !r.0.writable,
            r.0.warnings@ == warnings@,
            r.1 == SyncAction::RunDeps,
    {
        (
            SyncMachine {
                stage: SyncStage::Deps,
                round: SyncRound::First,
                frozen,
                deps_ok: false,
                ok: false,
                interp: false,
                stale: false,
                denied: false,
                writable: false,
                warnings,
            },
            SyncAction::RunDeps,
        )
    }

    fn decide(&mut self) -> (a: SyncAction)
        ensures
            (final(self).stage, final(self).round, a) == decided(
                old(self).round,
                old(self).frozen,
                old(self).deps_ok,
                old(self).ok,
                old(self).interp,
                old(self).stale,
                old(self).denied,
            ),
            final(self).frozen == old(self).frozen,
            final(self).deps_ok == old(self).deps_ok,
            final(self).ok == old(self).ok,
            final(self).interp == old(self).interp,
            final(self).stale == old(self).stale,
            final(self).denied == old(self).denied,
            final(self).writable == old(self).writable,
            final(self).warnings@ == old(self).warnings@,
    {
        if self.round == SyncRound::First && !self.ok && self.interp {
            self.stage = SyncStage::Provisioning;
            SyncAction::Provision
        } else if self.round != SyncRound::AfterRelock && !self.ok && self.stale && !self.frozen {
            self.stage = SyncStage::Relocking;
            self.round = SyncRound::AfterProvision;
            SyncAction::Relock
        } else if self.deps_ok && !self.ok && self.denied {
            self.stage = SyncStage::WritableRetry;
            self.round = SyncRound::AfterRelock;
            SyncAction::RunWritable
        } else {
            self.stage = SyncStage::Done;
            self.round = SyncRound::AfterRelock;
            SyncAction::Finish
        }
    }

    fn observe(&mut self, ok: bool, output: &str)
        ensures
            final(self).ok == ok,
            final(self).interp == needs_interpreter_spec(output@),
            final(self).stale == lock_is_stale_spec(output@),
            final(self).denied == denied_write(output@),
            final(self).stage == old(self).stage,
            final(self).round == old(self).round,
            final(self).frozen == old(self).frozen,
            final(self).deps_ok == old(self).deps_ok,
            final(self).writable == old(self).writable,
            final(self).warnings@ == old(self).warnings@,
    {
        self.ok = ok;
        self.interp = needs_interpreter(output);
        self.stale = lock_is_stale(output);
        self.denied = read_only_project_hint(output).is_some();
    }

    /// Take what the last action produced and say what to do next.
    ///
    /// A dependencies pass that fails ends the passes; a successful one is
    /// followed by the project pass. After the passes, the repairs of
    /// [`decided`] are tried. Retrying with the project writable is only ever
    /// chosen after a dependencies pass that succeeded: a *dependency's*
    /// backend failing on the read-only project shows the same signature, and
    /// re-running it writable would hand it exactly what the install phase
    /// denies.
    #[verifier::spinoff_prover]
    #[verifier::rlimit(30)]
    pub fn step(&mut self, event: SyncEvent) -> (a: SyncAction)
        requires
            expects(old(self).stage, event),
        ensures
            final(self).frozen == old(self).frozen,
            a == SyncAction::RunWritable ==> final(self).deps_ok && !final(self).ok && final(self).denied && final(self).stage == SyncStage::WritableRetry,
            a == SyncAction::Finish <==> final(self).stage == SyncStage::Done,
            match event {
                SyncEvent::Ran { ok, output } => match old(self).stage {
                    SyncStage::Deps => final(self).deps_ok == ok && final(self).ok == ok
                        && final(self).warnings@ == old(self).warnings@ && if ok {
                        final(self).stage == SyncStage::Project && a == SyncAction::RunProject
                            && final(self).round == old(self).round
                    } else {
                        (final(self).stage, final(self).round, a) == decided(
                            old(self).round,
                            old(self).frozen,
                            ok,
                            ok,
                            needs_interpreter_spec(output@),
                            lock_is_stale_spec(output@),
                            denied_write(output@),
                        )
                    },
                    SyncStage::Project => final(self).deps_ok == old(self).deps_ok && final(self).ok
                        == ok && final(self).warnings@ == old(self).warnings@ && (
                    final(self).stage,
                    final(self).round,
                    a,
                ) == decided(
                        old(self).round,
                        old(self).frozen,
                        old(self).deps_ok,
                        ok,
                        needs_interpreter_spec(output@),
                        lock_is_stale_spec(output@),
                        denied_write(output@),
                    ),
                    _ => final(self).stage == SyncStage::Done && a == SyncAction::Finish && if ok {
                        final(self).writable && final(self).ok && strs(final(self).warnings@)
                            == strs(old(self).warnings@).push(own_backend_warning())
                    } else {
                        final(self).writable == old(self).writable && strs(final(self).warnings@)
                            == strs(old(self).warnings@).push(read_only_hint_text())
                    },
                },
                SyncEvent::Provisioned(r) => final(self).deps_ok == old(self).deps_ok
                    && final(self).ok == old(self).ok && match r {
                    Ok(code) => final(self).warnings@ == old(self).warnings@ && if code == 0 {
                        final(self).stage == SyncStage::Deps && final(self).round
                            == SyncRound::AfterProvision && a == SyncAction::RunDeps
                    } else {
                        (final(self).stage, final(self).round, a) == decided(
                            SyncRound::AfterProvision,
                            old(self).frozen,
                            old(self).deps_ok,
                            old(self).ok,
                            old(self).interp,
                            old(self).stale,
                            old(self).denied,
                        )
                    },
                    Err(e) => strs(final(self).warnings@) == strs(old(self).warnings@).push(
                        interpreter_warning(e@),
                    ) && (final(self).stage, final(self).round, a) == decided(
                        SyncRound::AfterProvision,
                        old(self).frozen,
                        old(self).deps_ok,
                        old(self).ok,
                        old(self).interp,
                        old(self).stale,
                        old(self).denied,
                    ),
                },
                SyncEvent::Relocked { exit_code, warnings } => final(self).deps_ok == old(self).deps_ok && final(self).ok == old(self).ok && final(self).warnings@ == old(self).warnings@ + warnings@ && if exit_code == 0 {
                    final(self).stage == SyncStage::Deps && final(self).round
                        == SyncRound::AfterRelock && a == SyncAction::RunDeps
                } else {
                    (final(self).stage, final(self).round, a) == decided(
                        SyncRound::AfterRelock,
                        old(self).frozen,
                        old(self).deps_ok,
                        old(self).ok,
                        old(self).interp,
                        old(self).stale,
                        old(self).denied,
                    )
                },
            },
    {
        match event {
            SyncEvent::Ran { ok, output } => {
                if self.stage == SyncStage::Deps {
                    self.deps_ok = ok;
                    self.observe(ok, output.as_str());
                    if ok {
                        self.stage = SyncStage::Project;
                        return SyncAction::RunProject;
                    }
                    return self.decide();
                }
                if self.stage == SyncStage::Project {
                    self.observe(ok, output.as_str());
                    return self.decide();
                }
                if ok {
                    self.warnings.push(
                        String::from_str(
                            "your project's own build backend ran with write access to your source; dependency build backends did not",
                        ),
                    );
                    self.writable = true;
                    self.ok = true;
                } else {
                    self.warnings.push(String::from_str(
                        "the build backend tried to write into your project directory, which the install boundary keeps read-only. If that write is legitimate, set [install] project-writable = true in senv.toml — a dependency's build backend will then run with write access to your source.",
                    ));
                }
                self.stage = SyncStage::Done;
                SyncAction::Finish
            },
            SyncEvent::Provisioned(r) => {
                self.round = SyncRound::AfterProvision;
                match r {
                    Ok(code) => {
                        if code == 0 {
                            self.stage = SyncStage::Deps;
                            return SyncAction::RunDeps;
                        }
                        self.decide()
                    },
                    Err(e) => {
                        let mut line = chars_of("could not install a Python interpreter: ");
                        extend_str(&mut line, e.as_str());
                        self.warnings.push(string_of(line.as_slice()));
                        self.decide()
                    },
                }
            },
            SyncEvent::Relocked { exit_code, warnings } => {
                self.round = SyncRound::AfterRelock;
                let mut i: usize = 0;
                let ghost start = self.warnings@;
                while i < warnings.len()
                    invariant
                        i <= warnings@.len(),
                        self.warnings@ == start + warnings@.take(i as int),
                        self.stage == old(self).stage,
                        self.round == SyncRound::AfterRelock,
                        self.frozen == old(self).frozen,
                        self.deps_ok == old(self).deps_ok,
                        self.ok == old(self).ok,
                        self.interp == old(self).interp,
                        self.stale == old(self).stale,
                        self.denied == old(self).denied,
                        self.writable == old(self).writable,
                    decreases warnings.len() - i,
                {
                    self.warnings.push(warnings[i].clone());
                    assert(warnings@.take(i + 1) =~= warnings@.take(i as int).push(warnings@[i as int]));
                    i = i + 1;
                }
                assert(warnings@.take(warnings@.len() as int) =~= warnings@);
                if exit_code == 0 {
                    self.stage = SyncStage::Deps;
                    return SyncAction::RunDeps;
                }
                self.decide()
            },
        }
    }
}

// ── staged resolution ───────────────────────────────────────────────────────

pub open spec fn in_place_requested() -> Seq<char> {
    "--in-place was requested"@
}

/// Whether a manifest-writing uv command resolves in a staging copy:
/// `--in-place` forces the project directory, and otherwise the manifest
/// decides.
pub fn staging_choice(force_in_place: bool, manifest: &str) -> (s: Staging)
    ensures
        force_in_place ==> s.reason_view() == Some(in_place_requested()),
        !force_in_place ==> s.reason_view() == staging_reason(toml_document(manifest@)),
{
    if force_in_place {
        Staging::Impossible(String::from_str("--in-place was requested"))
    } else {
        staging_for(manifest)
    }
}

pub open spec fn in_place_note_text(reason: Seq<char>) -> Seq<char> {
    "resolving in the project directory rather than a staging copy: "@ + reason
        + ". Dependency build backends run with write access to your source for this command."@
}

pub open spec fn in_place_warning_text(reason: Seq<char>) -> Seq<char> {
    "resolved in-place ("@ + reason + ")"@
}

/// What the user is told, and what is recorded, when resolution cannot be
/// staged: the note printed before the run, and the warning in the result.
pub fn in_place_messages(reason: &str) -> (r: (String, String))
    ensures
        r.0@ == in_place_note_text(reason@),
        r.1@ == in_place_warning_text(reason@),
{
    let mut note = chars_of("resolving in the project directory rather than a staging copy: ");
    extend_str(&mut note, reason);
    extend_str(
        &mut note,
        ". Dependency build backends run with write access to your source for this command.",
    );
    let mut warning = chars_of("resolved in-place (");
    extend_str(&mut warning, reason);
    extend_str(&mut warning, ")");
    (string_of(note.as_slice()), string_of(warning.as_slice()))
}

/// The manifest files an in-place resolution changed, measured by their
/// hashes before and after rather than assumed; nothing when it failed.
pub open spec fn changed_in_place_spec(
    succeeded: bool,
    manifest_before: Option<Seq<char>>,
    manifest_after: Option<Seq<char>>,
    lock_before: Option<Seq<char>>,
    lock_after: Option<Seq<char>>,
) -> Seq<Seq<char>> {
    if !succeeded {
        seq![]
    } else {
        (if manifest_after != manifest_before {
            seq!["pyproject.toml"@]
        } else {
            seq![]
        }) + (if lock_after != lock_before {
            seq!["uv.lock"@]
        } else {
            seq![]
        })
    }
}

pub fn changed_in_place(
    succeeded: bool,
    manifest_before: &Option<String>,
    manifest_after: &Option<String>,
    lock_before: &Option<String>,
    lock_after: &Option<String>,
) -> (r: Vec<String>)
    ensures
        strs(r@) == changed_in_place_spec(
            succeeded,
            opt_str(*manifest_before),
            opt_str(*manifest_after),
            opt_str(*lock_before),
            opt_str(*lock_after),
        ),
{
    let mut out: Vec<String> = Vec::new();
    if succeeded {
        if !opt_str_eq(manifest_after, manifest_before) {
            out.push(String::from_str("pyproject.toml"));
        }
        let ghost mid = strs(out@);
        if !opt_str_eq(lock_after, lock_before) {
            out.push(String::from_str("uv.lock"));
        }
    }
    assert(strs(out@) =~= changed_in_place_spec(
        succeeded,
        opt_str(*manifest_before),
        opt_str(*manifest_after),
        opt_str(*lock_before),
        opt_str(*lock_after),
    ));
    out
}

// ── the environment's interpreter ───────────────────────────────────────────

/// The value of a `pyvenv.cfg` line naming the interpreter version, if it
/// is one: `version_info` first, then `version`.
pub open spec fn version_value(line: Seq<char>) -> Option<Seq<char>> {
    if starts_with_seq(line, "version_info "@) {
        Some(line.skip(13))
    } else if starts_with_seq(line, "version "@) {
        Some(line.skip(8))
    } else {
        None
    }
}

pub open spec fn first_version(ls: Seq<Seq<char>>) -> Option<Seq<char>>
    decreases ls.len(),
{
    if ls.len() == 0 {
        None
    } else {
        match version_value(ls[0]) {
            Some(v) => Some(v),
            None => first_version(ls.drop_first()),
        }
    }
}

/// The interpreter version recorded in a `pyvenv.cfg`: the first version
/// line's value, without the `=` and the spaces around it.
pub open spec fn venv_python_spec(cfg: Seq<char>) -> Option<Seq<char>> {
    match first_version(lines(cfg)) {
        Some(v) => Some(trim_seq(strip_prefix_all(v, "="@))),
        None => None,
    }
}

fn version_value_of(line: &[char]) -> (r: Option<Vec<char>>)
    ensures
        match r {
            Some(v) => version_value(line@) == Some(v@),
            None => version_value(line@) is None,
        },
{
    let long = chars_of("version_info ");
    let short = chars_of("version ");
    proof {
        reveal_strlit("version_info ");
        reveal_strlit("version ");
    }
    if starts_with(line, long.as_slice()) {
        return Some(slice_of(line, 13, line.len()));
    }
    if starts_with(line, short.as_slice()) {
        return Some(slice_of(line, 8, line.len()));
    }
    None
}

/// Read the interpreter version out of the text of a `pyvenv.cfg`.
pub fn venv_python(cfg: &str) -> (r: Option<String>)
    ensures
        match r {
            Some(v) => venv_python_spec(cfg@) == Some(v@),
            None => venv_python_spec(cfg@) is None,
        },
{
    let text = chars_of(cfg);
    let ls = split_lines(text.as_slice());
    let ghost all = lines(cfg@);
    assert(all.skip(0) =~= all);
    let mut i: usize = 0;
    while i < ls.len()
        invariant
            i <= ls@.len(),
            all == lines(cfg@),
            ls@.len() == all.len(),
            forall|t: int| 0 <= t < ls@.len() ==> #[trigger] ls@[t]@ == all[t],
            first_version(all) == first_version(all.skip(i as int)),
        decreases ls.len() - i,
    {
        assert(ls@[i as int]@ == all[i as int]);
        assert(all.skip(i as int)[0] == all[i as int]);
        if let Some(v) = version_value_of(ls[i].as_slice()) {
            let eq = ['='];
            assert(eq@ =~= "="@) by {
                reveal_strlit("=");
            }
            let stripped = trim_start_matches(v.as_slice(), eq.as_slice());
            let t = trim(stripped.as_slice());
            return Some(string_of(t.as_slice()));
        }
        assert(all.skip(i as int).drop_first() =~= all.skip(i + 1));
        i = i + 1;
    }
    None
}

// ── install and init, as printed ───────────────────────────────────────────

/// What one install-phase command did.
#[derive(Debug, Clone)]
pub struct InstallOutput {
    pub command: Vec<String>,
    pub tier: String,
    pub policy_digest: String,
    pub exit_code: i32,
    pub wall_ms: u64,
    /// Whether resolution happened in a staging copy rather than the project.
    pub staged: bool,
    /// Project files senv wrote back.
    pub changed: Vec<String>,
    pub warnings: Vec<String>,
    pub notes: Vec<String>,
    pub blocked: Vec<String>,
}

/// The first word of a command, or nothing.
pub open spec fn first_word(command: Seq<Seq<char>>) -> Seq<char> {
    if command.len() > 0 {
        command[0]
    } else {
        seq![]
    }
}

/// An install-phase command in its human form, all on standard error
/// (standard output belongs to uv): the warnings, the project files written
/// back, and on success a closing line with the tier and the wall time,
/// `seconds` being that time as already formatted.
pub open spec fn render_install_spec(o: InstallOutput, seconds: Seq<char>) -> Seq<(bool, Seq<char>)> {
    wrapped_lines(true, "warning: "@, strs(o.warnings@), 74, 9) + (if o.changed.len() > 0 {
        seq![err("updated "@ + join_seq(strs(o.changed@), ", "@))]
    } else {
        seq![]
    }) + (if o.exit_code == 0 {
        seq![
            err(
                "ok  uv "@ + first_word(strs(o.command@)) + "  ("@ + o.tier@ + " tier, "@ + seconds
                    + "s)"@,
            ),
        ]
    } else {
        seq![]
    })
}

/// An install-phase command in its human form.
pub fn render_install(o: &InstallOutput, seconds: &str) -> (r: Vec<Line>)
    ensures
        lines_view(r@) == render_install_spec(*o, seconds@),
{
    let mut lines: Vec<Line> = Vec::new();
    push_wrapped(&mut lines, true, "warning: ", o.warnings.as_slice(), 74, 9);
    let ghost a = lines_view(lines@);
    if o.changed.len() > 0 {
        let joined = crate::config::join_strings(o.changed.as_slice(), ", ");
        let mut t = chars_of("updated ");
        extend_chars(&mut t, joined.as_slice());
        emit(&mut lines, true, t.as_slice());
    }
    let ghost b = lines_view(lines@);
    if o.exit_code == 0 {
        let mut t = chars_of("ok  uv ");
        if o.command.len() > 0 {
            extend_str(&mut t, o.command[0].as_str());
        }
        extend_str(&mut t, "  (");
        extend_str(&mut t, o.tier.as_str());
        extend_str(&mut t, " tier, ");
        extend_str(&mut t, seconds);
        extend_str(&mut t, "s)");
        assert(t@ =~= "ok  uv "@ + first_word(strs(o.command@)) + "  ("@ + o.tier@ + " tier, "@
            + seconds@ + "s)"@);
        emit(&mut lines, true, t.as_slice());
    }
    assert(b =~= a + (if o.changed.len() > 0 {
        seq![err("updated "@ + join_seq(strs(o.changed@), ", "@))]
    } else {
        seq![]
    }));
    assert(lines_view(lines@) =~= render_install_spec(*o, seconds@));
    lines
}

/// What `senv init` did.
#[derive(Debug, Clone)]
pub struct InitOutput {
    pub project: String,
    pub state: String,
    pub venv: String,
    /// `created` or `adopted`.
    pub manifest: &'static str,
    pub python: Option<String>,
    pub venv_link: String,
    pub warnings: Vec<String>,
    /// The sync that followed, unless it was skipped.
    pub sync: Option<InstallOutput>,
}

pub open spec fn init_header(o: InitOutput) -> Seq<(bool, Seq<char>)> {
    seq![
        out(
            (if o.manifest@ == "created"@ {
                "created"@
            } else {
                "adopted"@
            }) + " pyproject.toml"@,
        ),
        out("  project      "@ + o.project@),
        out("  environment  "@ + o.venv@),
        out("  state        "@ + o.state@),
    ] + match o.python {
        Some(p) => seq![out("  python       "@ + p@ + " (written to .python-version)"@)],
        None => seq![],
    }
}

pub open spec fn init_outcome(sync: Option<InstallOutput>) -> (bool, Seq<char>) {
    match sync {
        None => out("\nrun `senv sync` to build the environment"@),
        Some(s) => if s.exit_code != 0 {
            err("\nthe environment was not built: uv exited "@ + signed_decimal(s.exit_code as int))
        } else {
            out("\nenvironment ready"@)
        },
    }
}

/// `senv init` in its human form: whether the manifest was created or
/// adopted, where everything lives, the warnings, and how the sync went.
pub open spec fn render_init_spec(o: InitOutput) -> Seq<(bool, Seq<char>)> {
    init_header(o) + wrapped_lines(true, "warning: "@, strs(o.warnings@), 74, 9) + seq![
        init_outcome(o.sync),
    ]
}

/// `senv init` in its human form.
pub fn render_init(o: &InitOutput) -> (r: Vec<Line>)
    ensures
        lines_view(r@) == render_init_spec(*o),
{
    let mut lines: Vec<Line> = Vec::new();
    if crate::text::str_eq(o.manifest, "created") {
        say(&mut lines, false, "created", " pyproject.toml");
    } else {
        say(&mut lines, false, "adopted", " pyproject.toml");
    }
    say(&mut lines, false, "  project      ", o.project.as_str());
    say(&mut lines, false, "  environment  ", o.venv.as_str());
    say(&mut lines, false, "  state        ", o.state.as_str());
    if let Some(p) = &o.python {
        let mut t = chars_of("  python       ");
        extend_str(&mut t, p.as_str());
        extend_str(&mut t, " (written to .python-version)");
        emit(&mut lines, false, t.as_slice());
    }
    assert(lines_view(lines@) =~= init_header(*o));
    push_wrapped(&mut lines, true, "warning: ", o.warnings.as_slice(), 74, 9);
    let ghost a = lines_view(lines@);
    match &o.sync {
        None => emit(
            &mut lines,
            false,
            chars_of("\nrun `senv sync` to build the environment").as_slice(),
        ),
        Some(s) => {
            if s.exit_code != 0 {
                let mut t = chars_of("\nthe environment was not built: uv exited ");
                extend_chars(&mut t, crate::lines::signed_decimal_chars(s.exit_code).as_slice());
                emit(&mut lines, true, t.as_slice());
            } else {
                emit(&mut lines, false, chars_of("\nenvironment ready").as_slice());
            }
        },
    }
    assert(lines_view(lines@) =~= a + seq![init_outcome(o.sync)]);
    lines
}

} // verus!
