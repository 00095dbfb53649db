//! senv's on-disk layout for a project, and the checks that keep it outside
//! the project tree.
//!
//! Everything senv writes — the environment, the resolved policies, the
//! receipts, the trust baseline — lives under a per-project state directory
//! outside the project, and the project keeps only a `.venv` symlink into
//! it. This is a security property: the run phase grants the project
//! read-write, so anything stored inside it is writable by the code the
//! boundary exists to contain.
//!
//! Locating the roots (environment variables, canonicalization) and reading
//! or writing files happen at the edge; this module decides.

use vstd::prelude::*;
use crate::config::{CacheScope, Config};
use crate::error::{Result, SenvError};
use crate::paths::{file_name, file_name_of, path_starts_with, path_under, same_path, path_eq};
use crate::text::{chars_of, extend_chars, extend_str, opt_str, path_join, path_join_seq, slice_of, string_of, strs};
use crate::trust::{PolicySnapshot, SNAPSHOT_VERSION, Verdict, widenings_spec};
use crate::util::{sha256_hex, sha256_hex_seq};
use crate::toml_value::{TomlTree, get_in, opt_get, parse_document, toml_document};
use vstd::utf8::encode_utf8;

verus! {

/// How the environment on disk came to be — the answer to "did these bytes
/// pass through the install boundary?".
#[derive(Debug, Clone, Copy, PartialEq, Eq, Structural)]
pub enum Provenance {
    /// No environment yet.
    Absent,
    /// Every package in it was installed by senv, inside the install boundary.
    Sandboxed,
    /// Adopted from a `.venv` that already existed: installed on the host,
    /// outside any boundary.
    HostInstalled,
}

impl Provenance {
    pub open spec fn name(self) -> Seq<char> {
        match self {
            Provenance::Absent => "absent"@,
            Provenance::Sandboxed => "sandboxed"@,
            Provenance::HostInstalled => "host-installed (unverified)"@,
        }
    }

    pub fn as_str(self) -> (r: &'static str)
        ensures
            r@ == self.name(),
    {
        match self {
            Provenance::Absent => "absent",
            Provenance::Sandboxed => "sandboxed",
            Provenance::HostInstalled => "host-installed (unverified)",
        }
    }
}

/// The current shape of `state.json`.
pub const STATE_VERSION: u32 = 1;

/// `state.json` — what senv remembers about a project between commands.
#[derive(Debug, Clone)]
pub struct State {
    pub version: u32,
    pub project_root: String,
    pub provenance: Provenance,
    /// Interpreter the environment was built with, as uv reported it.
    pub python: Option<String>,
    /// sha256 of `uv.lock` at the last successful sync.
    pub lock_hash: Option<String>,
    pub last_sync_ms: Option<u64>,
    /// Digest of the policy the last install ran under.
    pub install_digest: Option<String>,
    /// Digest of the policy the last run ran under.
    pub run_digest: Option<String>,
    /// The configuration senv was last told to trust. Kept here, outside the
    /// project, because `senv.toml` itself is inside the run phase's grant.
    pub trusted: Option<PolicySnapshot>,
}

impl State {
    /// The state of a project senv has not recorded anything about.
    pub fn fresh(project_root: String) -> (s: State)
        ensures
            s.version == STATE_VERSION,
            s.project_root == project_root,
            s.provenance == Provenance::Absent,
            s.python is None && s.lock_hash is None && s.last_sync_ms is None,
            s.install_digest is None && s.run_digest is None && s.trusted is None,
    {
        State {
            version: STATE_VERSION,
            project_root,
            provenance: Provenance::Absent,
            python: None,
            lock_hash: None,
            last_sync_ms: None,
            install_digest: None,
            run_digest: None,
            trusted: None,
        }
    }

    /// Record `snapshot` as the trusted baseline of the project at `root`.
    pub fn record_trusted(&mut self, root: String, snapshot: PolicySnapshot)
        ensures
            final(self).version == STATE_VERSION,
            final(self).project_root == root,
            final(self).trusted == Some(snapshot),
            final(self).provenance == old(self).provenance,
            final(self).python == old(self).python,
            final(self).lock_hash == old(self).lock_hash,
            final(self).last_sync_ms == old(self).last_sync_ms,
            final(self).install_digest == old(self).install_digest,
            final(self).run_digest == old(self).run_digest,
    {
        self.version = STATE_VERSION;
        self.project_root = root;
        self.trusted = Some(snapshot);
    }

    /// Record a successful sync: the environment is now senv's own, built
    /// inside the install boundary from the lockfile with this hash, under
    /// the policy with this digest.
    pub fn record_sync(
        &mut self,
        root: String,
        lock_hash: Option<String>,
        now_ms: u64,
        digest: String,
        python: Option<String>,
    )
        ensures
            final(self).version == STATE_VERSION,
            final(self).project_root == root,
            final(self).provenance == Provenance::Sandboxed,
            final(self).lock_hash == lock_hash,
            final(self).last_sync_ms == Some(now_ms),
            final(self).install_digest == Some(digest),
            final(self).python == python,
            final(self).run_digest == old(self).run_digest,
            final(self).trusted == old(self).trusted,
    {
        self.version = STATE_VERSION;
        self.project_root = root;
        self.provenance = Provenance::Sandboxed;
        self.lock_hash = lock_hash;
        self.last_sync_ms = Some(now_ms);
        self.install_digest = Some(digest);
        self.python = python;
    }
}

/// What the trust check concludes, as a value.
pub enum VerdictView {
    FormatChanged,
    FirstSight,
    Trusted,
    Widened(Seq<Seq<char>>),
}

impl View for Verdict {
    type V = VerdictView;

    open spec fn view(&self) -> VerdictView {
        match self {
            Verdict::FormatChanged => VerdictView::FormatChanged,
            Verdict::FirstSight => VerdictView::FirstSight,
            Verdict::Trusted => VerdictView::Trusted,
            Verdict::Widened(w) => VerdictView::Widened(strs(w@)),
        }
    }
}

/// The verdict on `current` given the recorded baseline, if any: a baseline
/// written in another snapshot format cannot be compared, and treating it as
/// a difference would accuse every user of tampering on upgrade.
pub open spec fn verdict_of(current: PolicySnapshot, trusted: Option<PolicySnapshot>) -> VerdictView {
    match trusted {
        None => VerdictView::FirstSight,
        Some(previous) => if previous.version != SNAPSHOT_VERSION {
            VerdictView::FormatChanged
        } else if widenings_spec(current, previous).len() == 0 {
            VerdictView::Trusted
        } else {
            VerdictView::Widened(widenings_spec(current, previous))
        },
    }
}

/// A discovered project and every path senv derives from it.
#[derive(Debug, Clone)]
pub struct Project {
    /// Canonicalized project root — the directory holding `pyproject.toml`.
    pub root: String,
    /// Stable identifier: a readable name plus a hash of the absolute path.
    pub key: String,
    /// Per-project state directory, outside the project tree.
    pub state_dir: String,
    pub config: Config,
    /// Where the configuration was loaded from — it may not exist yet.
    pub config_path: String,
    /// Root of the shared caches, resolved once at construction.
    pub cache_root: String,
}

/// The character a project name keeps, or `-` in its place.
pub open spec fn key_char(c: char) -> char {
    if crate::text::is_ascii_alnum(c) || c == '-' || c == '_' {
        c
    } else {
        '-'
    }
}

/// `s` without leading and trailing `-`.
pub open spec fn trim_dashes(s: Seq<char>) -> Seq<char>
    decreases s.len(),
{
    if s.len() > 0 && s[0] == '-' {
        trim_dashes(s.drop_first())
    } else if s.len() > 0 && s.last() == '-' {
        trim_dashes(s.drop_last())
    } else {
        s
    }
}

/// The readable half of a project key: the directory name with anything
/// unusable replaced, cut to 40 characters, `project` when nothing is left.
pub open spec fn key_name(root: Seq<char>) -> Seq<char> {
    let name = match file_name(root) {
        Some(n) => n,
        None => "project"@,
    };
    let mapped = name.map_values(|c: char| key_char(c));
    let cut = if mapped.len() > 40 { mapped.take(40) } else { mapped };
    let trimmed = trim_dashes(cut);
    if trimmed.len() == 0 {
        "project"@
    } else {
        trimmed
    }
}

/// `<readable-name>-<12 hex of the absolute path>`.
pub open spec fn project_key_spec(root: Seq<char>) -> Seq<char> {
    key_name(root) + seq!['-'] + sha256_hex_seq(encode_utf8(root)).take(12)
}

/// A character that is safe in a directory name on every platform senv runs on.
pub open spec fn usable_key_char(c: char) -> bool {
    crate::text::is_ascii_alnum(c) || c == '-' || c == '_'
}

proof fn lemma_trim_dashes(s: Seq<char>)
    ensures
        trim_dashes(s).len() <= s.len(),
        forall|i: int| 0 <= i < trim_dashes(s).len() ==> exists|j: int| 0 <= j < s.len() && #[trigger] trim_dashes(s)[i] == s[j],
    decreases s.len(),
{
    if s.len() > 0 && s[0] == '-' {
        lemma_trim_dashes(s.drop_first());
        assert forall|i: int| 0 <= i < trim_dashes(s).len() implies exists|j: int| 0 <= j < s.len() && #[trigger] trim_dashes(s)[i] == s[j] by {
            let j = choose|j: int| 0 <= j < s.drop_first().len() && trim_dashes(s.drop_first())[i] == s.drop_first()[j];
            assert(s[j + 1] == s.drop_first()[j]);
        }
    } else if s.len() > 0 && s.last() == '-' {
        lemma_trim_dashes(s.drop_last());
        assert forall|i: int| 0 <= i < trim_dashes(s).len() implies exists|j: int| 0 <= j < s.len() && #[trigger] trim_dashes(s)[i] == s[j] by {
            let j = choose|j: int| 0 <= j < s.drop_last().len() && trim_dashes(s.drop_last())[i] == s.drop_last()[j];
            assert(s[j] == s.drop_last()[j]);
        }
    } else {
        assert forall|i: int| 0 <= i < trim_dashes(s).len() implies exists|j: int| 0 <= j < s.len() && #[trigger] trim_dashes(s)[i] == s[j] by {
            assert(trim_dashes(s)[i] == s[i]);
        }
    }
}

fn trimmed_dashes(s: &[char]) -> (r: Vec<char>)
    ensures
        r@ == trim_dashes(s@),
{
    let mut lo: usize = 0;
    let mut hi: usize = s.len();
    assert(s@.subrange(0, s.len() as int) =~= s@);
    while lo < hi && (s[lo] == '-' || s[hi - 1] == '-')
        invariant
            lo <= hi <= s.len(),
            trim_dashes(s@) == trim_dashes(s@.subrange(lo as int, hi as int)),
        decreases hi - lo,
    {
        let ghost cur = s@.subrange(lo as int, hi as int);
        if s[lo] == '-' {
            assert(cur.drop_first() =~= s@.subrange(lo + 1, hi as int));
            lo = lo + 1;
        } else {
            assert(cur.drop_last() =~= s@.subrange(lo as int, hi - 1));
            hi = hi - 1;
        }
    }
    slice_of(s, lo, hi)
}

fn key_name_of(root: &str) -> (r: Vec<char>)
    ensures
        r@ == key_name(root@),
        0 < r@.len() <= 40,
        forall|i: int| 0 <= i < r@.len() ==> usable_key_char(#[trigger] r@[i]),
{
    let name = match file_name_of(root) {
        Some(n) => n,
        None => chars_of("project"),
    };
    let ghost mapped = name@.map_values(|c: char| key_char(c));
    let mut cut: Vec<char> = Vec::new();
    let mut i: usize = 0;
    while i < name.len() && i < 40
        invariant
            i <= name@.len(),
            i <= 40,
            mapped == name@.map_values(|c: char| key_char(c)),
            cut@ == mapped.take(i as int),
        decreases name.len() - i,
    {
        let c = name[i];
        let k = if crate::text::ascii_alnum(c) || c == '-' || c == '_' { c } else { '-' };
        cut.push(k);
        assert(mapped.take(i + 1) =~= mapped.take(i as int).push(mapped[i as int]));
        i = i + 1;
    }
    proof {
        if mapped.len() <= 40 {
            assert(mapped.take(mapped.len() as int) =~= mapped);
        }
        assert(forall|j: int| 0 <= j < cut@.len() ==> usable_key_char(#[trigger] cut@[j])) by {
            assert forall|j: int| 0 <= j < cut@.len() implies usable_key_char(#[trigger] cut@[j]) by {
                assert(cut@[j] == mapped[j]);
            }
        }
    }
    let trimmed = trimmed_dashes(cut.as_slice());
    proof {
        reveal_strlit("project");
        lemma_trim_dashes(cut@);
        assert forall|i: int| 0 <= i < trimmed@.len() implies usable_key_char(#[trigger] trimmed@[i]) by {
            let j = choose|j: int| 0 <= j < cut@.len() && trim_dashes(cut@)[i] == cut@[j];
        }
    }
    if trimmed.len() == 0 {
        chars_of("project")
    } else {
        trimmed
    }
}

/// The state-directory name of the project rooted at `root`: readable, and
/// unique by the hash of the full path.
pub fn project_key(root: &str) -> (r: String)
    ensures
        r@ == project_key_spec(root@),
        r@.len() > 0,
        r@.len() <= 53,
        forall|i: int| 0 <= i < r@.len() ==> usable_key_char(#[trigger] r@[i]),
{
    let mut out = key_name_of(root);
    let ghost named = out@;
    out.push('-');
    let hash = sha256_hex(encode_bytes(root));
    let hv = chars_of(hash.as_str());
    let short = slice_of(hv.as_slice(), 0, 12);
    extend_chars(&mut out, short.as_slice());
    proof {
        assert(short@ =~= hash@.take(12));
        assert forall|i: int| 0 <= i < out@.len() implies usable_key_char(#[trigger] out@[i]) by {
            if i < named.len() {
                assert(out@[i] == named[i]);
            } else if i > named.len() {
                assert(out@[i] == hash@[i - named.len() - 1]);
                assert(crate::util::is_hex_char(hash@[i - named.len() - 1]));
            }
        }
    }
    string_of(out.as_slice())
}

/// The bytes of a path, as `OsStr::as_encoded_bytes` gives them on Unix.
fn encode_bytes(s: &str) -> (b: &[u8])
    ensures
        b@ == encode_utf8(s@),
{
    s.as_bytes()
}

/// `dir` lies inside `root`, or `root` inside `data_area`: either way senv's
/// state would be reachable through the project's own write grant.
pub open spec fn state_overlaps(root: Seq<char>, dir: Seq<char>, data_area: Seq<char>) -> bool {
    path_starts_with(dir, root) || path_starts_with(root, data_area)
}

/// Refuse a state or cache root that overlaps the project tree.
///
/// The run phase grants the project read-write, so state kept inside it
/// would make the environment patchable between runs, the receipts erasable
/// and the trust baseline forgeable. The other direction is refused
/// narrowly: a project inside the area where senv keeps *other* projects'
/// data (`data_area`), not merely inside the state root.
pub fn refuse_root_inside_project(
    root: &str,
    dir: &str,
    data_area: &str,
    var: &str,
    xdg: &str,
) -> (r: Result<()>)
    ensures
        r is Ok <==> !state_overlaps(root@, dir@, data_area@),
        r matches Err(e) ==> e is Refused,
{
    if !path_under(dir, root) && !path_under(root, data_area) {
        return Ok(());
    }
    let mut what = chars_of("senv's state directory (");
    extend_str(&mut what, dir);
    extend_str(&mut what, ") is inside the project (");
    extend_str(&mut what, root);
    extend_str(&mut what, ")");
    let mut fix = chars_of("point ");
    extend_str(&mut fix, var);
    extend_str(&mut fix, " (or ");
    extend_str(&mut fix, xdg);
    extend_str(
        &mut fix,
        ") at a directory outside this project — somewhere like ~/.local/state/senv, or a path outside the workspace in CI — or unset it to use the default",
    );
    Err(SenvError::refused(
        string_of(what.as_slice()),
        String::from_str(
            "the run phase grants your project read-write — that is what it is for — so state kept in there is writable by the very code the boundary contains. It would make the environment patchable between runs, the receipts erasable, and the recorded policy baseline forgeable, while senv went on reporting all three as protected.",
        ),
        string_of(fix.as_slice()),
    ))
}

/// senv's state for a project, and the environment in it, lie outside the
/// project: once neither the state root lies inside the project nor the
/// project inside `<state root>/projects`, no directory named by a plain key
/// under `<state root>/projects`, nor its `venv`, lies at or under the
/// project root.
pub proof fn lemma_state_outside_project(root: Seq<char>, state_root: Seq<char>, key: Seq<char>)
    requires
        !state_overlaps(root, state_root, path_join_seq(state_root, "projects"@)),
        crate::paths::is_plain_name(key),
    ensures
        !path_starts_with(path_join_seq(path_join_seq(state_root, "projects"@), key), root),
        !path_starts_with(
            path_join_seq(path_join_seq(path_join_seq(state_root, "projects"@), key), "venv"@),
            root,
        ),
        !crate::paths::components(state_root).contains(".."@) ==> !crate::paths::components(
            path_join_seq(path_join_seq(state_root, "projects"@), key),
        ).contains(".."@),
{
    reveal_strlit("..");
    reveal_strlit("projects");
    reveal_strlit("venv");
    let projects = path_join_seq(state_root, "projects"@);
    let dir = path_join_seq(projects, key);
    crate::paths::lemma_components_join(state_root, "projects"@);
    crate::paths::lemma_components_join(projects, key);
    assert("venv"@.len() == 4 && seq!['.'].len() == 1 && seq!['.', '.'].len() == 2);
    assert(crate::paths::is_plain_name("venv"@));
    crate::paths::lemma_components_join(dir, "venv"@);
    let cs = crate::paths::components(state_root);
    let cp = crate::paths::components(projects);
    let cd = crate::paths::components(dir);
    let cv = crate::paths::components(path_join_seq(dir, "venv"@));
    let cr = crate::paths::components(root);
    let n = cr.len() as int;
    if !cs.contains(".."@) && cd.contains(".."@) {
        let i = choose|i: int| 0 <= i < cd.len() && cd[i] == ".."@;
        if i < cs.len() {
            assert(cs[i] == cd[i]);
        } else if i == cs.len() {
            assert(cd[i] == "projects"@);
            assert("projects"@[0] != ".."@[0]);
        } else {
            assert(cd[i] == key);
            assert(".."@ =~= seq!['.', '.']);
        }
    }
    if cr.len() <= cd.len() && cd.subrange(0, n) == cr {
        if n <= cs.len() {
            assert(cs.subrange(0, n) =~= cd.subrange(0, n));
        } else {
            assert(cr.subrange(0, cp.len() as int) =~= cp);
        }
    }
    if cr.len() <= cv.len() && cv.subrange(0, n) == cr {
        if n <= cd.len() {
            assert(cd.subrange(0, n) =~= cv.subrange(0, n));
            if n <= cs.len() {
                assert(cs.subrange(0, n) =~= cd.subrange(0, n));
            } else {
                assert(cr.subrange(0, cp.len() as int) =~= cp);
            }
        } else {
            assert(cr.subrange(0, cp.len() as int) =~= cp);
        }
    }
}

impl Project {
    /// The project rooted at exactly `root` (already canonical), with senv's
    /// state and cache roots (already resolved) and its loaded configuration.
    /// Refused when either root overlaps the project.
    pub fn assemble(root: &str, state_root: &str, cache_root: &str, config: Config) -> (r: Result<Project>)
        ensures
            r is Ok <==> !state_overlaps(
                root@,
                state_root@,
                path_join_seq(state_root@, "projects"@),
            ) && !state_overlaps(root@, cache_root@, cache_root@),
            r matches Ok(p) ==> {
                &&& p.root@ == root@
                &&& p.key@ == project_key_spec(root@)
                &&& p.state_dir@ == path_join_seq(
                    path_join_seq(state_root@, "projects"@),
                    project_key_spec(root@),
                )
                &&& p.config_path@ == path_join_seq(root@, crate::config::CONFIG_FILE@)
                &&& p.cache_root@ == cache_root@
                &&& p.config == config
                &&& !path_starts_with(p.state_dir@, p.root@)
                &&& !path_starts_with(path_join_seq(p.state_dir@, "venv"@), p.root@)
                &&& !crate::paths::components(state_root@).contains(".."@)
                    ==> !crate::paths::components(p.state_dir@).contains(".."@)
            },
    {
        let projects = path_join(state_root, "projects");
        refuse_root_inside_project(root, state_root, projects.as_str(), "SENV_STATE_DIR", "XDG_STATE_HOME")?;
        refuse_root_inside_project(root, cache_root, cache_root, "SENV_CACHE_DIR", "XDG_CACHE_HOME")?;
        let key = project_key(root);
        proof {
            assert(usable_key_char(key@[0]));
            assert(crate::paths::is_plain_name(key@));
            lemma_state_outside_project(root@, state_root@, key@);
        }
        let state_dir = path_join(projects.as_str(), key.as_str());
        let config_path = crate::config::config_path(root);
        Ok(Project {
            root: String::from_str(root),
            key,
            state_dir,
            config,
            config_path,
            cache_root: String::from_str(cache_root),
        })
    }

    /// The environment itself. Not inside the project.
    pub fn venv(&self) -> (r: String)
        ensures
            r@ == path_join_seq(self.state_dir@, "venv"@),
    {
        path_join(self.state_dir.as_str(), "venv")
    }

    /// The `.venv` symlink inside the project, for editors.
    pub fn venv_link(&self) -> (r: String)
        ensures
            r@ == path_join_seq(self.root@, ".venv"@),
    {
        path_join(self.root.as_str(), ".venv")
    }

    /// Writable scratch for the run phase.
    pub fn scratch(&self) -> (r: String)
        ensures
            r@ == path_join_seq(self.state_dir@, "scratch"@),
    {
        path_join(self.state_dir.as_str(), "scratch")
    }

    /// `TMPDIR` for a phase: each phase gets its own.
    pub fn tmp(&self, phase: &str) -> (r: String)
        ensures
            r@ == path_join_seq(path_join_seq(self.state_dir@, "tmp"@), phase@),
    {
        let t = path_join(self.state_dir.as_str(), "tmp");
        path_join(t.as_str(), phase)
    }

    /// Where manifests are copied for a staged resolution.
    pub fn stage(&self) -> (r: String)
        ensures
            r@ == path_join_seq(self.state_dir@, "stage"@),
    {
        path_join(self.state_dir.as_str(), "stage")
    }

    pub open spec fn cache_spec(&self) -> Seq<char> {
        match self.config.install.cache {
            CacheScope::Project => path_join_seq(self.state_dir@, "cache"@),
            CacheScope::Shared => path_join_seq(self.cache_root@, "uv"@),
        }
    }

    /// The wheel cache this project uses: its own unless `[install] cache`
    /// says shared.
    pub fn cache(&self) -> (r: String)
        ensures
            r@ == self.cache_spec(),
    {
        match self.config.install.cache {
            CacheScope::Project => path_join(self.state_dir.as_str(), "cache"),
            CacheScope::Shared => path_join(self.cache_root.as_str(), "uv"),
        }
    }

    /// Interpreters installed by uv, shared across projects.
    pub fn python_dir(&self) -> (r: String)
        ensures
            r@ == path_join_seq(self.cache_root@, "python"@),
    {
        path_join(self.cache_root.as_str(), "python")
    }

    /// Append-only execution record, outside every grant.
    pub fn receipt_path(&self) -> (r: String)
        ensures
            r@ == path_join_seq(self.state_dir@, "receipt.jsonl"@),
    {
        path_join(self.state_dir.as_str(), "receipt.jsonl")
    }

    pub fn state_path(&self) -> (r: String)
        ensures
            r@ == path_join_seq(self.state_dir@, "state.json"@),
    {
        path_join(self.state_dir.as_str(), "state.json")
    }

    /// Where a phase's resolved policy is written for inspection.
    pub fn policy_path(&self, phase: &str) -> (r: String)
        ensures
            r@ == path_join_seq(self.state_dir@, "policy."@ + phase@ + ".toml"@),
    {
        let mut name = chars_of("policy.");
        extend_str(&mut name, phase);
        extend_str(&mut name, ".toml");
        let n = string_of(name.as_slice());
        path_join(self.state_dir.as_str(), n.as_str())
    }

    pub fn lock_path(&self) -> (r: String)
        ensures
            r@ == path_join_seq(self.root@, "uv.lock"@),
    {
        path_join(self.root.as_str(), "uv.lock")
    }

    pub fn pyproject_path(&self) -> (r: String)
        ensures
            r@ == path_join_seq(self.root@, "pyproject.toml"@),
    {
        path_join(self.root.as_str(), "pyproject.toml")
    }

    /// The verdict for a snapshot the caller already took, against the
    /// baseline recorded in `state`.
    pub fn verdict_against(&self, current: &PolicySnapshot, state: &State) -> (v: Verdict)
        ensures
            v@ == verdict_of(*current, state.trusted),
    {
        match &state.trusted {
            None => Verdict::FirstSight,
            Some(previous) => {
                if previous.version != SNAPSHOT_VERSION {
                    Verdict::FormatChanged
                } else {
                    let w = current.widenings(previous);
                    if w.len() == 0 {
                        Verdict::Trusted
                    } else {
                        Verdict::Widened(w)
                    }
                }
            },
        }
    }

    /// Is the recorded lock hash still the lockfile's hash? `None` when
    /// there is no lockfile (`on_disk` is its hash) or nothing recorded.
    pub fn lock_is_current(&self, state: &State, on_disk: Option<&str>) -> (r: Option<bool>)
        ensures
            r == match (on_disk, state.lock_hash) {
                (Some(d), Some(h)) => Some(h@ == d@),
                _ => None,
            },
    {
        match (on_disk, &state.lock_hash) {
            (Some(d), Some(h)) => Some(crate::text::str_eq(h.as_str(), d)),
            _ => None,
        }
    }
}

/// The recorded baseline reads back as trusted: a snapshot recorded in the
/// current format is no widening of itself, whatever it grants.
pub proof fn lemma_recorded_baseline_is_trusted(s: PolicySnapshot)
    requires
        s.version == SNAPSHOT_VERSION,
    ensures
        verdict_of(s, Some(s)) == VerdictView::Trusted,
{
    crate::trust::lemma_unchanged_is_silent(s);
}

// ── the .venv link ─────────────────────────────────────────────────────────

/// What the project's `.venv` entry is.
#[derive(Debug, Clone)]
pub enum VenvLink {
    /// A symlink to senv's environment.
    Ours,
    /// A symlink to senv's environment, which does not exist yet.
    Dangling,
    /// Nothing there.
    Absent,
    /// A real directory — an environment installed outside senv.
    Directory,
    /// A symlink somewhere else.
    OtherLink(String),
    /// A symlink that could not be read.
    Foreign,
}

/// What is at `.venv` on disk, as the edge found it.
#[derive(Debug, Clone)]
pub enum LinkEntry {
    /// Nothing.
    Missing,
    /// A symlink, with its target when it could be read.
    Symlink(Option<String>),
    /// Anything that is not a symlink.
    Other,
}

/// A link to senv's environment counts by component, as paths compare.
pub open spec fn link_status_spec(entry: LinkEntry, venv: Seq<char>, venv_exists: bool) -> VenvLink {
    match entry {
        LinkEntry::Missing => VenvLink::Absent,
        LinkEntry::Other => VenvLink::Directory,
        LinkEntry::Symlink(None) => VenvLink::Foreign,
        LinkEntry::Symlink(Some(t)) => if same_path(t@, venv) {
            if venv_exists {
                VenvLink::Ours
            } else {
                VenvLink::Dangling
            }
        } else {
            VenvLink::OtherLink(t)
        },
    }
}

impl VenvLink {
    /// Classify `.venv` from what is on disk.
    pub fn of(entry: LinkEntry, venv: &str, venv_exists: bool) -> (r: VenvLink)
        ensures
            r == link_status_spec(entry, venv@, venv_exists),
    {
        match entry {
            LinkEntry::Missing => VenvLink::Absent,
            LinkEntry::Other => VenvLink::Directory,
            LinkEntry::Symlink(None) => VenvLink::Foreign,
            LinkEntry::Symlink(Some(t)) => {
                if path_eq(t.as_str(), venv) {
                    if venv_exists {
                        VenvLink::Ours
                    } else {
                        VenvLink::Dangling
                    }
                } else {
                    VenvLink::OtherLink(t)
                }
            },
        }
    }

    pub open spec fn warning_spec(&self) -> Option<Seq<char>> {
        match self {
            VenvLink::Dangling => Some(
                ".venv points at senv's environment, which has not been built yet — run `senv sync`."@,
            ),
            VenvLink::Directory => Some(
                "a real .venv directory exists here, so senv left it alone. Your editor and `source .venv/bin/activate` will use that environment, not senv's — run `senv init --replace-venv` to delete it and link to senv's instead."@,
            ),
            _ => None,
        }
    }

    /// The warning to print, if this state deserves one.
    pub fn warning(&self) -> (r: Option<String>)
        ensures
            match r {
                Some(w) => self.warning_spec() == Some(w@),
                None => self.warning_spec() is None,
            },
    {
        match self {
            VenvLink::Dangling => Some(String::from_str(
                ".venv points at senv's environment, which has not been built yet — run `senv sync`.",
            )),
            VenvLink::Directory => Some(String::from_str(
                "a real .venv directory exists here, so senv left it alone. Your editor and `source .venv/bin/activate` will use that environment, not senv's — run `senv init --replace-venv` to delete it and link to senv's instead.",
            )),
            _ => None,
        }
    }

    pub open spec fn label_spec(&self) -> Seq<char> {
        match self {
            VenvLink::Ours => "linked"@,
            VenvLink::Dangling => "linked, but nothing built yet"@,
            VenvLink::Absent => "absent"@,
            VenvLink::Directory => "a real directory (not senv's)"@,
            VenvLink::OtherLink(p) => "links elsewhere: "@ + crate::util::sanitize_seq(p@),
            VenvLink::Foreign => "unreadable"@,
        }
    }

    /// How `status` describes the link; a foreign target was chosen by
    /// whatever wrote it, so it is sanitized.
    pub fn label(&self) -> (r: String)
        ensures
            r@ == self.label_spec(),
    {
        match self {
            VenvLink::Ours => String::from_str("linked"),
            VenvLink::Dangling => String::from_str("linked, but nothing built yet"),
            VenvLink::Absent => String::from_str("absent"),
            VenvLink::Directory => String::from_str("a real directory (not senv's)"),
            VenvLink::OtherLink(p) => {
                let mut out = chars_of("links elsewhere: ");
                let t = crate::util::sanitize(p.as_str());
                extend_str(&mut out, t.as_str());
                string_of(out.as_slice())
            },
            VenvLink::Foreign => String::from_str("unreadable"),
        }
    }
}

/// What to do to point `.venv` at senv's environment.
#[derive(Debug, Clone, Copy, PartialEq, Eq, Structural)]
pub enum LinkAction {
    /// Already right (or right once the environment is built).
    Keep,
    /// Nothing there: create the link.
    Create,
    /// A stale or unreadable link: replacing a symlink destroys nothing.
    Replace,
    /// A real directory: senv never deletes one it did not create.
    LeaveDirectory,
}

pub open spec fn link_action_spec(status: VenvLink) -> LinkAction {
    match status {
        VenvLink::Ours | VenvLink::Dangling => LinkAction::Keep,
        VenvLink::Absent => LinkAction::Create,
        VenvLink::OtherLink(_) | VenvLink::Foreign => LinkAction::Replace,
        VenvLink::Directory => LinkAction::LeaveDirectory,
    }
}

pub fn link_action(status: &VenvLink) -> (a: LinkAction)
    ensures
        a == link_action_spec(*status),
{
    match status {
        VenvLink::Ours | VenvLink::Dangling => LinkAction::Keep,
        VenvLink::Absent => LinkAction::Create,
        VenvLink::OtherLink(_) | VenvLink::Foreign => LinkAction::Replace,
        VenvLink::Directory => LinkAction::LeaveDirectory,
    }
}

/// The provenance `init` records: an adopted real `.venv` holds packages
/// that never passed through the install boundary.
pub fn adopted_provenance(current: Provenance, link: &VenvLink) -> (p: Provenance)
    ensures
        p == (if current == Provenance::Absent && link is Directory {
            Provenance::HostInstalled
        } else {
            current
        }),
{
    if current == Provenance::Absent && matches!(link, VenvLink::Directory) {
        Provenance::HostInstalled
    } else {
        current
    }
}

// ── where senv keeps its data ──────────────────────────────────────────────

pub open spec fn is_absolute(p: Seq<char>) -> bool {
    p.len() > 0 && p[0] == '/'
}

/// senv's roots must be absolute: a relative one moves with the working
/// directory, and one that resolved inside a project would put senv's state
/// inside the sandbox's own write grant.
pub open spec fn absolute_root_ok(e: SenvError, var: Seq<char>, value: Seq<char>) -> bool {
    e matches SenvError::Refused { what, why, fix } && what@ == var + " must be an absolute path"@
        && why@ == value
        + " is relative, so it would move with the working directory \u{2014} and if it resolved inside a project, senv's state would land inside the sandbox's own write grant."@
        && fix@ == "set "@ + var + " to an absolute path, or unset it to use the default"@
}

/// The root named by `var`, refused unless absolute.
pub fn absolute_root(var: &str, value: &str) -> (r: Result<String>)
    ensures
        is_absolute(value@) ==> (r matches Ok(p) && p@ == value@),
        !is_absolute(value@) ==> (r matches Err(e) && absolute_root_ok(e, var@, value@)),
{
    let v = chars_of(value);
    if v.len() > 0 && v[0] == '/' {
        return Ok(String::from_str(value));
    }
    let mut what = chars_of(var);
    extend_str(&mut what, " must be an absolute path");
    let mut why = chars_of(value);
    extend_str(
        &mut why,
        " is relative, so it would move with the working directory \u{2014} and if it resolved inside a project, senv's state would land inside the sandbox's own write grant.",
    );
    let mut fix = chars_of("set ");
    extend_str(&mut fix, var);
    extend_str(&mut fix, " to an absolute path, or unset it to use the default");
    Err(SenvError::refused(string_of(what.as_slice()), string_of(why.as_slice()), string_of(fix.as_slice())))
}

pub open spec fn no_home_message() -> Seq<char> {
    "$HOME is not set, so senv cannot locate its state directory"@
}

/// The root senv keeps one kind of data under: `$SENV_<KIND>_DIR` (which
/// must be absolute), else `$XDG_<KIND>_HOME/senv` when that is absolute,
/// else `<home>/<fallback>`.
pub open spec fn root_outcome(
    var: Seq<char>,
    own: Option<Seq<char>>,
    xdg: Option<Seq<char>>,
    home: Option<Seq<char>>,
    fallback: Seq<char>,
    r: Result<String>,
) -> bool {
    match own {
        Some(v) => if is_absolute(v) {
            r matches Ok(p) && p@ == v
        } else {
            r matches Err(e) && absolute_root_ok(e, var, v)
        },
        None => if xdg is Some && is_absolute(xdg->0) {
            r matches Ok(p) && p@ == path_join_seq(xdg->0, "senv"@)
        } else {
            match home {
                Some(h) => r matches Ok(p) && p@ == path_join_seq(h, fallback),
                None => r matches Err(SenvError::Internal(m)) && m@ == no_home_message(),
            }
        },
    }
}

fn root_from(var: &str, own: Option<&str>, xdg: Option<&str>, home: Option<&str>, fallback: &str) -> (r: Result<String>)
    ensures
        root_outcome(
            var@,
            crate::policy::home_view(own),
            crate::policy::home_view(xdg),
            crate::policy::home_view(home),
            fallback@,
            r,
        ),
{
    if let Some(v) = own {
        return absolute_root(var, v);
    }
    if let Some(x) = xdg {
        let xv = chars_of(x);
        if xv.len() > 0 && xv[0] == '/' {
            return Ok(path_join(x, "senv"));
        }
    }
    match home {
        Some(h) => Ok(path_join(h, fallback)),
        None => Err(
            SenvError::internal(
                String::from_str("$HOME is not set, so senv cannot locate its state directory"),
            ),
        ),
    }
}

/// Root of senv's state, from `$SENV_STATE_DIR`, `$XDG_STATE_HOME` and
/// `$HOME` as read from the environment.
pub fn state_root_from(senv_state_dir: Option<&str>, xdg_state_home: Option<&str>, home: Option<&str>) -> (r: Result<String>)
    ensures
        root_outcome(
            "SENV_STATE_DIR"@,
            crate::policy::home_view(senv_state_dir),
            crate::policy::home_view(xdg_state_home),
            crate::policy::home_view(home),
            ".local/state/senv"@,
            r,
        ),
{
    root_from("SENV_STATE_DIR", senv_state_dir, xdg_state_home, home, ".local/state/senv")
}

/// Root of senv's shared caches, from `$SENV_CACHE_DIR`, `$XDG_CACHE_HOME`
/// and `$HOME` as read from the environment.
pub fn cache_root_from(senv_cache_dir: Option<&str>, xdg_cache_home: Option<&str>, home: Option<&str>) -> (r: Result<String>)
    ensures
        root_outcome(
            "SENV_CACHE_DIR"@,
            crate::policy::home_view(senv_cache_dir),
            crate::policy::home_view(xdg_cache_home),
            crate::policy::home_view(home),
            ".cache/senv"@,
            r,
        ),
{
    root_from("SENV_CACHE_DIR", senv_cache_dir, xdg_cache_home, home, ".cache/senv")
}

/// The manifest declares a uv workspace (`[tool.uv.workspace]`), so the
/// directory holding it is the root of every member below it.
pub open spec fn declares_workspace_spec(doc: Option<TomlTree>) -> bool {
    opt_get(opt_get(opt_get(doc, "tool"@), "uv"@), "workspace"@) is Some
}

/// Does this `pyproject.toml` text declare a uv workspace? Text that does
/// not parse declares nothing.
pub fn declares_workspace(manifest: &str) -> (b: bool)
    ensures
        b == declares_workspace_spec(toml_document(manifest@)),
{
    match parse_document(manifest) {
        Ok(v) => {
            let tool = v.get("tool");
            let uv = get_in(tool, "uv");
            get_in(uv, "workspace").is_some()
        },
        Err(_) => false,
    }
}

} // verus!
