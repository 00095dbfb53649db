//! Compiling `senv.toml` into the per-phase boundaries senv enforces.
//!
//! Installation and execution are different trust problems, so they get
//! different policies:
//!
//! - [`Phase::Provision`] downloads a Python interpreter. No third-party code
//!   runs; the only writable paths are the interpreter directory and the
//!   phase's own scratch.
//! - [`Phase::Install`] runs `uv`, and therefore the build backends of every
//!   source distribution in the dependency tree. Egress is limited to package
//!   registries, the project is read-only, writes are confined to the
//!   environment, the wheel cache and scratch, and no secret is injected.
//! - [`Phase::Run`] runs the project's code. The project is writable, the
//!   environment is read-only, and the network is denied unless opened.
//!
//! Each profile here is what senv adds on top of the sandbox engine's
//! fail-closed built-in profile; a field senv does not set keeps the
//! engine's default.

use vstd::prelude::*;
use crate::config::{Config, EngineParse, InstallNet, IsolationClaim, ResourceParse, ResourceSection, SecretSection};
use crate::error::{Result, SenvError};
use crate::project::Project;
use crate::text::{
    chars_of, clone_opt, contains_string, extend_chars, extend_str, opt_str, path_join,
    path_join_seq, string_of, strs,
};
use crate::util::{expand_tilde_in, expand_tilde_seq, join_seq};

verus! {

/// Default memory ceiling of the run phase, in bytes (4 GiB).
pub const RUN_DEFAULT_MEM: u64 = 4_294_967_296;
/// Default process ceiling of the run phase.
pub const RUN_DEFAULT_PROCS: u64 = 256;
/// Default wall clock of the run phase, in seconds (30 minutes).
pub const RUN_DEFAULT_WALL_SECS: u64 = 1800;
/// Default memory ceiling of the install phase, in bytes (8 GiB).
pub const INSTALL_DEFAULT_MEM: u64 = 8_589_934_592;
/// Default process ceiling of the install phase.
pub const INSTALL_DEFAULT_PROCS: u64 = 512;
/// Default wall clock of the install phase, in seconds (one hour).
pub const INSTALL_DEFAULT_WALL_SECS: u64 = 3600;

/// A finite stand-in for `wall = "none"`: the engine refuses to express an
/// unbounded wall clock, and one year is longer than any dev-server session
/// while still a real kill switch.
pub const UNBOUNDED_WALL_SECS: u64 = 31_536_000;

/// Memory ceiling of the provisioning phase, in bytes (2 GiB).
pub const PROVISION_MEM: u64 = 2_147_483_648;

/// Wall clock of the provisioning phase, in seconds (30 minutes).
pub const PROVISION_WALL_SECS: u64 = 1800;

/// PyPI, and the CDN it redirects downloads to: both are needed for any
/// install.
pub open spec fn pypi_hosts() -> Seq<Seq<char>> {
    seq!["pypi.org"@, "files.pythonhosted.org"@]
}

/// Where `uv python install` fetches interpreters from, for the
/// provisioning phase only.
pub open spec fn python_download_hosts() -> Seq<Seq<char>> {
    seq![
        "github.com"@,
        "api.github.com"@,
        "objects.githubusercontent.com"@,
        "release-assets.githubusercontent.com"@,
        "astral.sh"@,
    ]
}

/// Credential files (and one code-execution path) that must never sit
/// inside a grant, beyond the engine's own list. They are a lint: the engine
/// refuses a policy whose grants would expose one.
pub open spec fn extra_deny() -> Seq<Seq<char>> {
    seq![
        "~/.netrc"@,
        "~/.pypirc"@,
        "~/.git-credentials"@,
        "~/.docker/config.json"@,
        "~/.config/gcloud"@,
        "~/.kube/config"@,
        "~/Library/Caches/com.apple.python"@,
    ]
}

/// The deny list a policy is resolved with: the engine profile's own paths
/// and senv's credential paths, in ascending order and each once (what
/// `extend`, `sort` and `dedup` leave).
pub fn merged_deny(base: &Vec<String>) -> (r: Vec<String>)
    ensures
        crate::order::is_strictly_sorted(strs(r@)),
        strs(r@).to_set() == strs(base@).to_set() + extra_deny().to_set(),
        forall|i: int| 0 <= i < extra_deny().len() ==> strs(r@).contains(#[trigger] extra_deny()[i]),
{
    let mut all = crate::text::clone_strings(base.as_slice());
    let mut extra = extra_deny_list();
    let ghost e = extra@;
    all.append(&mut extra);
    let r = crate::order::sorted_unique(&all);
    proof {
        assert(strs(all@) =~= strs(base@) + strs(e));
        vstd::seq_lib::seq_to_set_distributes_over_add(strs(base@), strs(e));
        assert forall|i: int| 0 <= i < extra_deny().len() implies strs(r@).contains(
            #[trigger] extra_deny()[i],
        ) by {
            assert(strs(e)[i] == extra_deny()[i]);
            assert(extra_deny().to_set().contains(extra_deny()[i]));
            assert(strs(r@).to_set().contains(extra_deny()[i]));
        }
    }
    r
}

fn strings_of(items: &[&str]) -> (r: Vec<String>)
    ensures
        strs(r@) == items@.map_values(|s: &str| s@),
{
    let mut out: Vec<String> = Vec::new();
    let mut i: usize = 0;
    while i < items.len()
        invariant
            i <= items@.len(),
            strs(out@) == items@.map_values(|s: &str| s@).take(i as int),
        decreases items.len() - i,
    {
        let ghost before = out@;
        out.push(String::from_str(items[i]));
        assert(strs(out@) =~= strs(before).push(items@[i as int]@));
        assert(items@.map_values(|s: &str| s@).take(i + 1) =~= items@.map_values(|s: &str| s@).take(
            i as int,
        ).push(items@[i as int]@));
        i = i + 1;
    }
    assert(items@.map_values(|s: &str| s@).take(items@.len() as int) =~= items@.map_values(
        |s: &str| s@,
    ));
    out
}

/// [`pypi_hosts`] as strings.
pub fn pypi_host_list() -> (r: Vec<String>)
    ensures
        strs(r@) == pypi_hosts(),
{
    let hosts: [&str; 2] = ["pypi.org", "files.pythonhosted.org"];
    let r = strings_of(&hosts);
    assert(hosts@.map_values(|s: &str| s@) =~= pypi_hosts());
    r
}

/// [`python_download_hosts`] as strings.
pub fn python_download_host_list() -> (r: Vec<String>)
    ensures
        strs(r@) == python_download_hosts(),
{
    let hosts: [&str; 5] = [
        "github.com",
        "api.github.com",
        "objects.githubusercontent.com",
        "release-assets.githubusercontent.com",
        "astral.sh",
    ];
    let r = strings_of(&hosts);
    assert(hosts@.map_values(|s: &str| s@) =~= python_download_hosts());
    r
}

/// [`extra_deny`] as strings.
pub fn extra_deny_list() -> (r: Vec<String>)
    ensures
        strs(r@) == extra_deny(),
{
    let paths: [&str; 7] = [
        "~/.netrc",
        "~/.pypirc",
        "~/.git-credentials",
        "~/.docker/config.json",
        "~/.config/gcloud",
        "~/.kube/config",
        "~/Library/Caches/com.apple.python",
    ];
    let r = strings_of(&paths);
    assert(paths@.map_values(|s: &str| s@) =~= extra_deny());
    r
}

// ── phases and notes ───────────────────────────────────────────────────────

#[derive(Debug, Clone, Copy, PartialEq, Eq, Structural)]
pub enum Phase {
    Provision,
    Install,
    Run,
    Shell,
}

impl Phase {
    pub open spec fn name(self) -> Seq<char> {
        match self {
            Phase::Provision => "provision"@,
            Phase::Install => "install"@,
            Phase::Run => "run"@,
            Phase::Shell => "shell"@,
        }
    }

    pub fn as_str(self) -> (r: &'static str)
        ensures
            r@ == self.name(),
    {
        match self {
            Phase::Provision => "provision",
            Phase::Install => "install",
            Phase::Run => "run",
            Phase::Shell => "shell",
        }
    }

    /// `run` and `shell` share one policy; they differ only in what is
    /// executed inside it.
    pub fn policy_name(self) -> (r: &'static str)
        ensures
            r@ == (if self == Phase::Shell { "run"@ } else { self.name() }),
    {
        match self {
            Phase::Shell => "run",
            other => other.as_str(),
        }
    }

    pub open spec fn run_like(self) -> bool {
        self == Phase::Run || self == Phase::Shell
    }

    pub fn is_run_like(self) -> (b: bool)
        ensures
            b == self.run_like(),
    {
        matches!(self, Phase::Run | Phase::Shell)
    }
}

#[derive(Debug, Clone, Copy, PartialEq, Eq, Structural)]
pub enum NoteLevel {
    Info,
    Warn,
}

/// Something the user must be told about the policy about to be enforced:
/// senv never widens a boundary silently.
#[derive(Debug, Clone)]
pub struct Note {
    pub level: NoteLevel,
    pub text: String,
}

impl Note {
    pub fn info(text: String) -> (n: Note)
        ensures
            n.level == NoteLevel::Info,
            n.text == text,
    {
        Note { level: NoteLevel::Info, text }
    }

    pub fn warn(text: String) -> (n: Note)
        ensures
            n.level == NoteLevel::Warn,
            n.text == text,
    {
        Note { level: NoteLevel::Warn, text }
    }
}

/// Notes as values.
pub open spec fn note_views(v: Seq<Note>) -> Seq<(NoteLevel, Seq<char>)> {
    v.map_values(|n: Note| (n.level, n.text@))
}

// ── profiles ───────────────────────────────────────────────────────────────

/// How a profile's network is set.
#[derive(Debug, Clone, Copy, PartialEq, Eq, Structural)]
pub enum NetMode {
    /// No route out except the allowlist, if there is one.
    Deny,
    /// Unrestricted.
    Host,
}

/// A secret handed to a phase: by name, with where it comes from and how it
/// is delivered. Never a value.
#[derive(Debug, Clone)]
pub struct SecretGrant {
    pub name: String,
    pub source: Option<String>,
    pub inject: Option<String>,
    pub ttl: Option<String>,
}

/// A [`SecretGrant`] as a value.
pub struct GrantView {
    pub name: Seq<char>,
    pub source: Option<Seq<char>>,
    pub inject: Option<Seq<char>>,
    pub ttl: Option<Seq<char>>,
}

impl View for SecretGrant {
    type V = GrantView;

    open spec fn view(&self) -> GrantView {
        GrantView {
            name: self.name@,
            source: opt_str(self.source),
            inject: opt_str(self.inject),
            ttl: opt_str(self.ttl),
        }
    }
}

pub open spec fn grant_views(v: Seq<SecretGrant>) -> Seq<GrantView> {
    v.map_values(|g: SecretGrant| g@)
}

/// What senv sets on the sandbox engine's fail-closed built-in profile for
/// one phase. Lists hold what senv adds; a field the engine owns and senv
/// does not set is not here.
#[derive(Debug, Clone)]
pub struct PhaseProfile {
    /// The engine profile's name.
    pub name: String,
    /// The tier the built-in profile starts from.
    pub base: IsolationClaim,
    pub fs_read: Vec<String>,
    pub fs_write: Vec<String>,
    pub net_mode: NetMode,
    pub net_egress: Vec<String>,
    pub mem_bytes: u64,
    /// `None` keeps the engine's default.
    pub max_procs: Option<u64>,
    pub wall_secs: u64,
    pub fsize_bytes: Option<u64>,
    pub cpu_secs: Option<u64>,
    pub tools: Vec<String>,
    pub env_pass: Vec<String>,
    pub secret_grants: Vec<SecretGrant>,
    /// The names of the secret grants.
    pub secrets: Vec<String>,
    /// Whether secret sources may run host-side commands. Never inferred.
    pub allow_command_extractors: bool,
}

/// What a phase builder produces: the profile, the working directory, the
/// environment the child is given, and what the user must be told.
#[derive(Debug, Clone)]
pub struct PhaseParts {
    pub profile: PhaseProfile,
    pub work: String,
    pub env: Vec<(String, String)>,
    pub notes: Vec<Note>,
}

/// Environment pairs as values.
pub open spec fn env_views(v: Seq<(String, String)>) -> Seq<(Seq<char>, Seq<char>)> {
    v.map_values(|p: (String, String)| (p.0@, p.1@))
}

/// Inputs that vary per invocation rather than per project.
#[derive(Debug, Clone)]
pub struct PlanOptions {
    /// The install phase writes into the project directory.
    pub project_writable: bool,
    /// Run the install against this directory instead of the project root.
    pub work_override: Option<String>,
    /// Extra egress hosts for this invocation only (`senv run --allow-net`).
    pub extra_hosts: Vec<String>,
    /// Path to the `uv` binary, which must be granted read access.
    pub uv: Option<String>,
}

impl PlanOptions {
    pub fn new() -> (o: PlanOptions)
        ensures
            !o.project_writable,
            o.work_override is None,
            o.extra_hosts@.len() == 0,
            o.uv is None,
    {
        PlanOptions { project_writable: false, work_override: None, extra_hosts: Vec::new(), uv: None }
    }
}

/// Restrict egress to `hosts` and nothing else: `Deny` plus the list, so no
/// backend can read the pair as "a network, restricted".
pub open spec fn is_allowlist_of(p: PhaseProfile, hosts: Seq<Seq<char>>) -> bool {
    p.net_mode == NetMode::Deny && strs(p.net_egress@) == hosts
}

/// Does this profile restrict egress to named hosts? Read the list, never the
/// mode: an allowlist is `Deny` with a non-empty list.
pub fn has_allowlist(p: &PhaseProfile) -> (b: bool)
    ensures
        b == (p.net_egress@.len() > 0),
{
    p.net_egress.len() > 0
}

/// Is this profile's network unrestricted?
pub fn is_unrestricted(p: &PhaseProfile) -> (b: bool)
    ensures
        b == (p.net_mode == NetMode::Host && p.net_egress@.len() == 0),
{
    p.net_mode == NetMode::Host && p.net_egress.len() == 0
}

/// The `PATH` confined commands get: only directories inside the engine's
/// built-in read grants, Homebrew's first on macOS.
pub open spec fn system_path_spec(macos: bool) -> Seq<char> {
    let common = "/usr/local/sbin:/usr/local/bin:/usr/sbin:/usr/bin:/sbin:/bin"@;
    if macos {
        "/opt/homebrew/bin:/opt/homebrew/sbin:"@ + common
    } else {
        common
    }
}

/// A deterministic `PATH` for confined commands; the host's is not reused.
pub fn system_path(macos: bool) -> (r: String)
    ensures
        r@ == system_path_spec(macos),
{
    let mut out: Vec<char> = Vec::new();
    if macos {
        extend_str(&mut out, "/opt/homebrew/bin:/opt/homebrew/sbin:");
    }
    extend_str(&mut out, "/usr/local/sbin:/usr/local/bin:/usr/sbin:/usr/bin:/sbin:/bin");
    string_of(out.as_slice())
}

/// The grant a secret becomes.
pub open spec fn grant_of(name: Seq<char>, s: SecretSection) -> GrantView {
    GrantView { name, source: opt_str(s.source), inject: opt_str(s.inject), ttl: opt_str(s.ttl) }
}

/// The secret applies to the phase whose name is `want`: a secret with no
/// `phases` list applies to both run and shell.
pub open spec fn applies_to(s: SecretSection, want: Seq<char>) -> bool {
    s.phases@.len() == 0 || strs(s.phases@).contains(want)
}

/// The grants among `secrets` that apply to `want`, in order.
pub open spec fn grants_for(secrets: Seq<(String, SecretSection)>, want: Seq<char>) -> Seq<GrantView>
    decreases secrets.len(),
{
    if secrets.len() == 0 {
        seq![]
    } else {
        let rest = grants_for(secrets.drop_last(), want);
        let (name, s) = secrets.last();
        if applies_to(s, want) {
            rest.push(grant_of(name@, s))
        } else {
            rest
        }
    }
}

/// Secret grants that apply to `phase`; the install and provisioning phases
/// get none.
pub open spec fn secret_grants_spec(cfg: Config, phase: Phase) -> Seq<GrantView> {
    if !phase.run_like() {
        seq![]
    } else if phase == Phase::Shell {
        grants_for(cfg.secrets@, "shell"@)
    } else {
        grants_for(cfg.secrets@, "run"@)
    }
}

/// Secret grants that apply to `phase`.
pub fn secret_grants(cfg: &Config, phase: Phase) -> (r: Vec<SecretGrant>)
    ensures
        grant_views(r@) == secret_grants_spec(*cfg, phase),
{
    let mut out: Vec<SecretGrant> = Vec::new();
    if !phase.is_run_like() {
        assert(grant_views(out@) =~= seq![]);
        return out;
    }
    let want = if phase == Phase::Shell { "shell" } else { "run" };
    let mut i: usize = 0;
    while i < cfg.secrets.len()
        invariant
            i <= cfg.secrets@.len(),
            phase.run_like(),
            want@ == (if phase == Phase::Shell { "shell"@ } else { "run"@ }),
            grant_views(out@) == grants_for(cfg.secrets@.take(i as int), want@),
        decreases cfg.secrets.len() - i,
    {
        let (name, s) = &cfg.secrets[i];
        proof {
            assert(cfg.secrets@.take(i + 1).drop_last() =~= cfg.secrets@.take(i as int));
            assert(cfg.secrets@.take(i + 1).last() == cfg.secrets@[i as int]);
        }
        let applies = s.phases.len() == 0 || contains_string(s.phases.as_slice(), want);
        if applies {
            let ghost before = out@;
            out.push(SecretGrant {
                name: name.clone(),
                source: clone_opt(&s.source),
                inject: clone_opt(&s.inject),
                ttl: clone_opt(&s.ttl),
            });
            assert(grant_views(out@) =~= grant_views(before).push(grant_of(name@, *s)));
        }
        i = i + 1;
    }
    assert(cfg.secrets@.take(cfg.secrets@.len() as int) =~= cfg.secrets@);
    out
}

/// `s` with every entry after its first occurrence removed.
pub open spec fn first_occurrences(s: Seq<Seq<char>>) -> Seq<Seq<char>>
    decreases s.len(),
{
    if s.len() == 0 {
        seq![]
    } else {
        let rest = first_occurrences(s.drop_last());
        if rest.contains(s.last()) {
            rest
        } else {
            rest.push(s.last())
        }
    }
}

/// Keeps the first occurrence of every entry, in order.
pub fn dedup_keep_first(v: &Vec<String>) -> (r: Vec<String>)
    ensures
        strs(r@) == first_occurrences(strs(v@)),
{
    let mut out: Vec<String> = Vec::new();
    let mut i: usize = 0;
    while i < v.len()
        invariant
            i <= v@.len(),
            strs(out@) == first_occurrences(strs(v@).take(i as int)),
        decreases v.len() - i,
    {
        proof {
            assert(strs(v@).take(i + 1).drop_last() =~= strs(v@).take(i as int));
            assert(strs(v@).take(i + 1).last() == v@[i as int]@);
        }
        if !contains_string(out.as_slice(), v[i].as_str()) {
            let ghost before = out@;
            out.push(v[i].clone());
            assert(strs(out@) =~= strs(before).push(v@[i as int]@));
        }
        i = i + 1;
    }
    assert(strs(v@).take(v@.len() as int) =~= strs(v@));
    out
}

/// The read and write grants with repeats removed: the engine unions grants,
/// so a repeat is harmless, but the resolved policy is what a person reads
/// and what the digest is taken over.
pub fn dedup_grants(p: &mut PhaseProfile)
    ensures
        strs(final(p).fs_read@) == first_occurrences(strs(old(p).fs_read@)),
        strs(final(p).fs_write@) == first_occurrences(strs(old(p).fs_write@)),
        final(p).net_mode == old(p).net_mode,
        final(p).net_egress == old(p).net_egress,
        final(p).mem_bytes == old(p).mem_bytes,
        final(p).max_procs == old(p).max_procs,
        final(p).wall_secs == old(p).wall_secs,
        final(p).fsize_bytes == old(p).fsize_bytes,
        final(p).cpu_secs == old(p).cpu_secs,
        final(p).tools == old(p).tools,
        final(p).env_pass == old(p).env_pass,
        final(p).secret_grants == old(p).secret_grants,
        final(p).secrets == old(p).secrets,
        final(p).allow_command_extractors == old(p).allow_command_extractors,
        final(p).name == old(p).name,
        final(p).base == old(p).base,
{
    let r = dedup_keep_first(&p.fs_read);
    let w = dedup_keep_first(&p.fs_write);
    p.fs_read = r;
    p.fs_write = w;
}

/// Every entry of `first_occurrences(s)` is there once.
pub proof fn lemma_first_occurrences_unique(s: Seq<Seq<char>>)
    ensures
        forall|i: int, j: int|
            0 <= i < j < first_occurrences(s).len() ==> first_occurrences(s)[i]
                != first_occurrences(s)[j],
        forall|x: Seq<char>| first_occurrences(s).contains(x) <==> s.contains(x),
    decreases s.len(),
{
    if s.len() > 0 {
        lemma_first_occurrences_unique(s.drop_last());
        let rest = first_occurrences(s.drop_last());
        assert forall|x: Seq<char>| first_occurrences(s).contains(x) <==> s.contains(x) by {
            if s.contains(x) {
                let k = choose|k: int| 0 <= k < s.len() && s[k] == x;
                if k < s.len() - 1 {
                    assert(s.drop_last()[k] == x);
                }
            }
            if s.drop_last().contains(x) {
                let k = choose|k: int| 0 <= k < s.drop_last().len() && s.drop_last()[k] == x;
                assert(s[k] == x);
            }
            if !rest.contains(s.last()) {
                assert(rest.push(s.last())[rest.len() as int] == s.last());
                if rest.push(s.last()).contains(x) {
                    let k = choose|k: int| 0 <= k < rest.push(s.last()).len() && rest.push(s.last())[k] == x;
                    if k < rest.len() {
                        assert(rest[k] == x);
                    }
                }
                if rest.contains(x) {
                    let k = choose|k: int| 0 <= k < rest.len() && rest[k] == x;
                    assert(rest.push(s.last())[k] == x);
                }
            }
        }
    }
}

// ── resource ceilings ──────────────────────────────────────────────────────

/// The engine read this string without complaint (or it is unset).
pub open spec fn reading_ok(set: bool, parsed: Option<core::result::Result<u64, String>>) -> bool {
    !set || (parsed is Some && parsed->0 is Ok)
}

/// The engine's refusal of a reading, if it refused.
pub open spec fn refusal_of(parsed: Option<core::result::Result<u64, String>>) -> Seq<char> {
    match parsed {
        Some(Err(e)) => e@,
        _ => seq![],
    }
}

/// Every resource string of the section was accepted.
pub open spec fn ceilings_ok(r: ResourceSection, p: ResourceParse) -> bool {
    &&& reading_ok(r.mem is Some, p.mem)
    &&& (r.wall_is_unbounded_spec() || reading_ok(r.wall is Some, p.wall))
    &&& reading_ok(r.fsize is Some, p.fsize)
    &&& reading_ok(r.cpu is Some, p.cpu)
}

/// The first refusal, in the order mem, wall, fsize, cpu.
pub open spec fn ceilings_refusal(r: ResourceSection, p: ResourceParse) -> Seq<char> {
    if !reading_ok(r.mem is Some, p.mem) {
        refusal_of(p.mem)
    } else if !(r.wall_is_unbounded_spec() || reading_ok(r.wall is Some, p.wall)) {
        refusal_of(p.wall)
    } else if !reading_ok(r.fsize is Some, p.fsize) {
        refusal_of(p.fsize)
    } else {
        refusal_of(p.cpu)
    }
}

/// The ceilings a phase runs under.
#[derive(Debug, Clone, Copy, PartialEq, Eq, Structural)]
pub struct Ceilings {
    pub mem_bytes: u64,
    pub max_procs: u64,
    pub wall_secs: u64,
    pub fsize_bytes: Option<u64>,
    pub cpu_secs: Option<u64>,
}

/// A reading that is present only when set.
pub open spec fn optional_reading(set: bool, parsed: Option<core::result::Result<u64, String>>) -> Option<u64> {
    if set {
        Some(crate::trust::reading(true, parsed, 0))
    } else {
        None
    }
}

/// The ceilings of a section that the engine accepted, with the phase's
/// defaults where it is silent.
pub open spec fn ceilings_spec(r: ResourceSection, p: ResourceParse, mem: u64, procs: u64, wall: u64) -> Ceilings {
    Ceilings {
        mem_bytes: crate::trust::reading(r.mem is Some, p.mem, mem),
        max_procs: match r.procs {
            Some(v) => v,
            None => procs,
        },
        wall_secs: if r.wall_is_unbounded_spec() {
            UNBOUNDED_WALL_SECS
        } else {
            crate::trust::reading(r.wall is Some, p.wall, wall)
        },
        fsize_bytes: optional_reading(r.fsize is Some, p.fsize),
        cpu_secs: optional_reading(r.cpu is Some, p.cpu),
    }
}

fn accepted(set: bool, parsed: &Option<core::result::Result<u64, String>>, default: u64) -> (r: core::result::Result<u64, String>)
    requires
        set ==> parsed is Some,
    ensures
        r is Ok <==> reading_ok(set, *parsed),
        r matches Ok(v) ==> v == crate::trust::reading(set, *parsed, default),
        r matches Err(e) ==> e@ == refusal_of(*parsed),
{
    if !set {
        return Ok(default);
    }
    match parsed {
        Some(Ok(v)) => Ok(*v),
        Some(Err(e)) => Err(e.clone()),
        None => Ok(default),
    }
}

/// The ceilings of a section, or the engine's refusal of one of its strings.
pub fn ceilings(r: &ResourceSection, p: &ResourceParse, mem: u64, procs: u64, wall: u64) -> (c: Result<Ceilings>)
    requires
        p.covers(*r),
    ensures
        c is Ok <==> ceilings_ok(*r, *p),
        c matches Ok(v) ==> v == ceilings_spec(*r, *p, mem, procs, wall),
        c matches Err(e) ==> e matches SenvError::Sandbox(m) && m@ == ceilings_refusal(*r, *p),
{
    let mem_bytes = match accepted(r.mem.is_some(), &p.mem, mem) {
        Ok(v) => v,
        Err(e) => return Err(SenvError::Sandbox(e)),
    };
    let wall_secs = if r.wall_is_unbounded() {
        UNBOUNDED_WALL_SECS
    } else {
        match accepted(r.wall.is_some(), &p.wall, wall) {
            Ok(v) => v,
            Err(e) => return Err(SenvError::Sandbox(e)),
        }
    };
    let fsize_bytes = if r.fsize.is_some() {
        match accepted(true, &p.fsize, 0) {
            Ok(v) => Some(v),
            Err(e) => return Err(SenvError::Sandbox(e)),
        }
    } else {
        None
    };
    let cpu_secs = if r.cpu.is_some() {
        match accepted(true, &p.cpu, 0) {
            Ok(v) => Some(v),
            Err(e) => return Err(SenvError::Sandbox(e)),
        }
    } else {
        None
    };
    let max_procs = match r.procs {
        Some(v) => v,
        None => procs,
    };
    Ok(Ceilings { mem_bytes, max_procs, wall_secs, fsize_bytes, cpu_secs })
}

// ── per-phase profiles ─────────────────────────────────────────────────────

/// Configured paths with a leading `~` expanded against `home`.
pub open spec fn expanded(paths: Seq<Seq<char>>, home: Option<Seq<char>>) -> Seq<Seq<char>> {
    paths.map_values(|p: Seq<char>| expand_tilde_seq(p, home))
}

pub open spec fn home_view(home: Option<&str>) -> Option<Seq<char>> {
    match home {
        Some(h) => Some(h@),
        None => None,
    }
}

/// Appends every configured path, expanded.
fn push_expanded(out: &mut Vec<String>, paths: &Vec<String>, home: Option<&str>)
    ensures
        strs(final(out)@) == strs(old(out)@) + expanded(strs(paths@), home_view(home)),
{
    let ghost start = strs(out@);
    let mut i: usize = 0;
    while i < paths.len()
        invariant
            i <= paths@.len(),
            strs(out@) == start + expanded(strs(paths@), home_view(home)).take(i as int),
        decreases paths.len() - i,
    {
        let ghost before = out@;
        out.push(expand_tilde_in(paths[i].as_str(), home));
        assert(strs(out@) =~= strs(before).push(expand_tilde_seq(paths@[i as int]@, home_view(home))));
        assert(expanded(strs(paths@), home_view(home)).take(i + 1) =~= expanded(strs(paths@), home_view(home)).take(i as int).push(
            expand_tilde_seq(paths@[i as int]@, home_view(home)),
        ));
        i = i + 1;
    }
    assert(expanded(strs(paths@), home_view(home)).take(paths@.len() as int) =~= expanded(strs(paths@), home_view(home)));
}

fn pair(k: &str, v: String) -> (r: (String, String))
    ensures
        r.0@ == k@,
        r.1 == v,
{
    (String::from_str(k), v)
}

/// `uv`, as a one-element list.
fn uv_tools() -> (r: Vec<String>)
    ensures
        strs(r@) == seq!["uv"@],
{
    let mut t: Vec<String> = Vec::new();
    t.push(String::from_str("uv"));
    assert(strs(t@) =~= seq!["uv"@]);
    t
}

pub open spec fn opt_list(o: Option<String>) -> Seq<Seq<char>> {
    match o {
        Some(x) => seq![x@],
        None => seq![],
    }
}

/// Provisioning: `uv python install`. One command, no project involvement,
/// no third-party code; writable are only the interpreter directory and the
/// phase's own scratch (which holds uv's cache).
pub open spec fn provision_env(project: Project, macos: bool) -> Seq<(Seq<char>, Seq<char>)> {
    let work = path_join_seq(path_join_seq(project.state_dir@, "tmp"@), "provision"@);
    let py = path_join_seq(project.cache_root@, "python"@);
    seq![
        ("UV_PYTHON_INSTALL_DIR"@, py),
        ("UV_PYTHON_DOWNLOADS"@, "manual"@),
        ("UV_PYTHON_INSTALL_BIN"@, "0"@),
        ("UV_CACHE_DIR"@, path_join_seq(work, "cache"@)),
        ("TMPDIR"@, work),
        ("PATH"@, system_path_spec(macos)),
    ]
}

/// The profile every phase starts from, before its own grants.
fn base_profile(name: &str, base: IsolationClaim) -> (p: PhaseProfile)
    ensures
        p.name@ == name@,
        p.base == base,
        p.fs_read@.len() == 0 && p.fs_write@.len() == 0,
        p.net_mode == NetMode::Deny && p.net_egress@.len() == 0,
        p.max_procs is None && p.fsize_bytes is None && p.cpu_secs is None,
        p.tools@.len() == 0 && p.env_pass@.len() == 0,
        p.secret_grants@.len() == 0 && p.secrets@.len() == 0,
        !p.allow_command_extractors,
{
    PhaseProfile {
        name: String::from_str(name),
        base,
        fs_read: Vec::new(),
        fs_write: Vec::new(),
        net_mode: NetMode::Deny,
        net_egress: Vec::new(),
        mem_bytes: 0,
        max_procs: None,
        wall_secs: 0,
        fsize_bytes: None,
        cpu_secs: None,
        tools: Vec::new(),
        env_pass: Vec::new(),
        secret_grants: Vec::new(),
        secrets: Vec::new(),
        allow_command_extractors: false,
    }
}

pub fn provision_profile(project: &Project, opts: &PlanOptions, macos: bool) -> (r: PhaseParts)
    ensures
        r.profile.name@ == "senv-provision"@,
        r.profile.base == IsolationClaim::Supervised,
        strs(r.profile.fs_read@) == opt_list(opts.uv),
        strs(r.profile.fs_write@) == seq![
            path_join_seq(project.cache_root@, "python"@),
            path_join_seq(path_join_seq(project.state_dir@, "tmp"@), "provision"@),
        ],
        is_allowlist_of(r.profile, python_download_hosts()),
        r.profile.mem_bytes == PROVISION_MEM,
        r.profile.max_procs is None,
        r.profile.wall_secs == PROVISION_WALL_SECS,
        r.profile.fsize_bytes is None && r.profile.cpu_secs is None,
        strs(r.profile.tools@) == seq!["uv"@],
        r.profile.env_pass@.len() == 0,
        r.profile.secret_grants@.len() == 0 && r.profile.secrets@.len() == 0,
        !r.profile.allow_command_extractors,
        r.work@ == path_join_seq(path_join_seq(project.state_dir@, "tmp"@), "provision"@),
        env_views(r.env@) == provision_env(*project, macos),
        r.notes@.len() == 0,
{
    let work = project.tmp("provision");
    let cache = path_join(work.as_str(), "cache");
    let python_dir = project.python_dir();
    let mut p = base_profile("senv-provision", IsolationClaim::Supervised);
    match &opts.uv {
        Some(uv) => p.fs_read.push(uv.clone()),
        None => {},
    }
    assert(strs(p.fs_read@) =~= opt_list(opts.uv));
    p.fs_write.push(python_dir.clone());
    p.fs_write.push(work.clone());
    p.net_egress = python_download_host_list();
    p.mem_bytes = PROVISION_MEM;
    p.wall_secs = PROVISION_WALL_SECS;
    p.tools = uv_tools();
    let mut env: Vec<(String, String)> = Vec::new();
    env.push(pair("UV_PYTHON_INSTALL_DIR", python_dir));
    env.push(pair("UV_PYTHON_DOWNLOADS", String::from_str("manual")));
    env.push(pair("UV_PYTHON_INSTALL_BIN", String::from_str("0")));
    env.push(pair("UV_CACHE_DIR", cache));
    env.push(pair("TMPDIR", work.clone()));
    env.push(pair("PATH", system_path(macos)));
    assert(strs(p.fs_write@) =~= seq![
        path_join_seq(project.cache_root@, "python"@),
        path_join_seq(path_join_seq(project.state_dir@, "tmp"@), "provision"@),
    ]);
    assert(env_views(env@) =~= provision_env(*project, macos));
    PhaseParts { profile: p, work, env, notes: Vec::new() }
}

/// The install phase writes to its working directory: a staging copy is
/// senv's own scratch, and the project is writable only when asked for.
pub open spec fn install_writes_work(project: Project, opts: PlanOptions) -> bool {
    opts.work_override is Some || opts.project_writable || project.config.install.project_writable
}

pub fn project_writable(project: &Project, opts: &PlanOptions) -> (b: bool)
    ensures
        b == install_writes_work(*project, *opts),
{
    opts.work_override.is_some() || opts.project_writable || project.config.install.project_writable
}

pub open spec fn install_writable_note() -> Seq<char> {
    "the install phase can write to your project directory — a dependency's build backend runs with that access. Set [install] project-writable = false (the default) once the build no longer needs it."@
}

pub open spec fn install_host_note() -> Seq<char> {
    "[install] net = \"host\" — installs run with unrestricted network access. A build backend can reach any host it likes. This is recorded in every receipt for these installs."@
}

/// The grants the install phase reads: the project (unless it writes it),
/// uv, the interpreters, and what `[install] read` adds.
pub open spec fn install_reads(project: Project, opts: PlanOptions, home: Option<Seq<char>>) -> Seq<Seq<char>> {
    (if install_writes_work(project, opts) { seq![] } else { seq![project.root@] })
        + opt_list(opts.uv) + seq![path_join_seq(project.cache_root@, "python"@)]
        + expanded(strs(project.config.install.read@), home)
}

/// The install phase writes the environment, the wheel cache and its own
/// scratch — never the project, unless asked.
pub open spec fn install_writes(project: Project) -> Seq<Seq<char>> {
    seq![
        path_join_seq(project.state_dir@, "venv"@),
        project.cache_spec(),
        path_join_seq(path_join_seq(project.state_dir@, "tmp"@), "install"@),
    ]
}

pub open spec fn install_notes(project: Project, opts: PlanOptions) -> Seq<(NoteLevel, Seq<char>)> {
    (if install_writes_work(project, opts) && opts.work_override is None {
        seq![(NoteLevel::Warn, install_writable_note())]
    } else {
        seq![]
    }) + (if project.config.install.net == InstallNet::Host {
        seq![(NoteLevel::Warn, install_host_note())]
    } else {
        seq![]
    })
}

pub open spec fn install_env(project: Project, macos: bool) -> Seq<(Seq<char>, Seq<char>)> {
    let venv = path_join_seq(project.state_dir@, "venv"@);
    seq![
        ("UV_PROJECT_ENVIRONMENT"@, venv),
        ("UV_CACHE_DIR"@, project.cache_spec()),
        ("UV_PYTHON_INSTALL_DIR"@, path_join_seq(project.cache_root@, "python"@)),
        ("UV_PYTHON_DOWNLOADS"@, "never"@),
        ("TMPDIR"@, path_join_seq(path_join_seq(project.state_dir@, "tmp"@), "install"@)),
        ("PATH"@, system_path_spec(macos)),
        ("VIRTUAL_ENV"@, venv),
        ("UV_COMPILE_BYTECODE"@, "1"@),
    ] + match project.config.env.python {
        Some(py) => seq![("UV_PYTHON"@, py@)],
        None => seq![],
    }
}

/// The install boundary: registries-only egress, no secrets, writes confined
/// to the environment, the cache and scratch, and the project read-only
/// unless explicitly opened.
pub fn install_profile(
    project: &Project,
    opts: &PlanOptions,
    home: Option<&str>,
    engine: &EngineParse,
    macos: bool,
) -> (r: Result<PhaseParts>)
    requires
        engine.covers(project.config),
    ensures
        r is Ok <==> ceilings_ok(project.config.install.resources, engine.install),
        r matches Err(e) ==> e matches SenvError::Sandbox(m) && m@ == ceilings_refusal(
            project.config.install.resources,
            engine.install,
        ),
        r matches Ok(parts) ==> {
            let p = parts.profile;
            let c = ceilings_spec(
                project.config.install.resources,
                engine.install,
                INSTALL_DEFAULT_MEM,
                INSTALL_DEFAULT_PROCS,
                INSTALL_DEFAULT_WALL_SECS,
            );
            &&& p.name@ == "senv-install"@
            &&& p.base == IsolationClaim::Supervised
            &&& strs(p.fs_read@) == install_reads(*project, *opts, home_view(home))
            &&& strs(p.fs_write@) == install_writes(*project)
            &&& (project.config.install.net == InstallNet::Registries ==> is_allowlist_of(
                p,
                pypi_hosts() + strs(project.config.install.extra_indexes@),
            ))
            &&& (project.config.install.net == InstallNet::Host ==> p.net_mode == NetMode::Host
                && p.net_egress@.len() == 0)
            &&& p.mem_bytes == c.mem_bytes && p.max_procs == Some(c.max_procs)
            &&& p.wall_secs == c.wall_secs
            &&& p.fsize_bytes == c.fsize_bytes && p.cpu_secs == c.cpu_secs
            &&& strs(p.tools@) == seq!["uv"@]
            &&& p.env_pass@.len() == 0
            &&& p.secret_grants@.len() == 0 && p.secrets@.len() == 0
            &&& !p.allow_command_extractors
            &&& parts.work@ == match opts.work_override {
                Some(w) => w@,
                None => project.root@,
            }
            &&& env_views(parts.env@) == install_env(*project, macos)
            &&& note_views(parts.notes@) == install_notes(*project, *opts)
        },
{
    let cfg = &project.config;
    let work = match &opts.work_override {
        Some(w) => w.clone(),
        None => project.root.clone(),
    };
    let staged = opts.work_override.is_some();
    let venv = project.venv();
    let cache = project.cache();
    let tmp = project.tmp("install");
    let python_dir = project.python_dir();
    let mut notes: Vec<Note> = Vec::new();
    let mut p = base_profile("senv-install", IsolationClaim::Supervised);
    let writable = project_writable(project, opts);
    if !writable {
        p.fs_read.push(project.root.clone());
    } else if !staged {
        notes.push(Note::warn(String::from_str(
            "the install phase can write to your project directory — a dependency's build backend runs with that access. Set [install] project-writable = false (the default) once the build no longer needs it.",
        )));
    }
    match &opts.uv {
        Some(uv) => p.fs_read.push(uv.clone()),
        None => {},
    }
    p.fs_read.push(python_dir.clone());
    assert(strs(p.fs_read@) =~= (if writable { seq![] } else { seq![project.root@] }) + opt_list(opts.uv) + seq![python_dir@]);
    push_expanded(&mut p.fs_read, &cfg.install.read, home);
    p.fs_write.push(venv.clone());
    p.fs_write.push(cache.clone());
    p.fs_write.push(tmp.clone());
    assert(strs(p.fs_write@) =~= install_writes(*project));
    let ghost before_net = note_views(notes@);
    match cfg.install.net {
        InstallNet::Registries => {
            let mut hosts = pypi_host_list();
            let extra = crate::text::clone_strings(cfg.install.extra_indexes.as_slice());
            let ghost h0 = hosts@;
            let mut extra_v = extra;
            hosts.append(&mut extra_v);
            assert(strs(hosts@) =~= strs(h0) + strs(cfg.install.extra_indexes@));
            p.net_mode = NetMode::Deny;
            p.net_egress = hosts;
        },
        InstallNet::Host => {
            p.net_mode = NetMode::Host;
            p.net_egress = Vec::new();
            notes.push(Note::warn(String::from_str(
                "[install] net = \"host\" — installs run with unrestricted network access. A build backend can reach any host it likes. This is recorded in every receipt for these installs.",
            )));
        },
    }
    assert(note_views(notes@) =~= install_notes(*project, *opts));
    let c = ceilings(
        &cfg.install.resources,
        &engine.install,
        INSTALL_DEFAULT_MEM,
        INSTALL_DEFAULT_PROCS,
        INSTALL_DEFAULT_WALL_SECS,
    )?;
    p.mem_bytes = c.mem_bytes;
    p.max_procs = Some(c.max_procs);
    p.wall_secs = c.wall_secs;
    p.fsize_bytes = c.fsize_bytes;
    p.cpu_secs = c.cpu_secs;
    p.tools = uv_tools();
    let mut env: Vec<(String, String)> = Vec::new();
    env.push(pair("UV_PROJECT_ENVIRONMENT", venv.clone()));
    env.push(pair("UV_CACHE_DIR", cache));
    env.push(pair("UV_PYTHON_INSTALL_DIR", python_dir));
    env.push(pair("UV_PYTHON_DOWNLOADS", String::from_str("never")));
    env.push(pair("TMPDIR", tmp));
    env.push(pair("PATH", system_path(macos)));
    env.push(pair("VIRTUAL_ENV", venv));
    env.push(pair("UV_COMPILE_BYTECODE", String::from_str("1")));
    match &cfg.env.python {
        Some(py) => env.push(pair("UV_PYTHON", py.clone())),
        None => {},
    }
    assert(env_views(env@) =~= install_env(*project, macos));
    Ok(PhaseParts { profile: p, work, env, notes })
}

pub open spec fn run_host_note() -> Seq<char> {
    "[run] net = \"host\" — your code has unrestricted network access."@
}

pub open spec fn allow_net_note(extra: Seq<Seq<char>>) -> Seq<char> {
    "--allow-net widened this run to "@ + join_seq(extra, ", "@) + " (not saved; use `senv allow` to keep it)"@
}

pub open spec fn wall_note() -> Seq<char> {
    "[run.resources] wall is not enforced for `senv run` or `senv shell` — the interactive path has no deadline. It is enforced for installs. For a kernel-enforced ceiling on a runaway command, set [run.resources] cpu."@
}

pub open spec fn command_secret_note() -> Seq<char> {
    "a secret uses a command: source, which runs host-side code outside the sandbox to mint the credential."@
}

/// The hosts the run phase may reach: the configured allowlist plus
/// `--allow-net`.
pub open spec fn run_hosts(cfg: Config, opts: PlanOptions) -> Seq<Seq<char>> {
    cfg.run.net.hosts_spec() + strs(opts.extra_hosts@)
}

/// The run phase denies the network: nothing to allow, or `deny` with no
/// `--allow-net`.
pub open spec fn run_denied(cfg: Config, opts: PlanOptions) -> bool {
    !cfg.run.net.is_host_spec() && (run_hosts(cfg, opts).len() == 0 || (cfg.run.net.is_deny_spec()
        && opts.extra_hosts@.len() == 0))
}

pub open spec fn run_notes(cfg: Config, opts: PlanOptions) -> Seq<(NoteLevel, Seq<char>)> {
    (if cfg.run.net.is_host_spec() {
        seq![(NoteLevel::Warn, run_host_note())]
    } else if !run_denied(cfg, opts) && opts.extra_hosts@.len() > 0 {
        seq![(NoteLevel::Info, allow_net_note(strs(opts.extra_hosts@)))]
    } else {
        seq![]
    }) + (if cfg.run.resources.wall is Some && !cfg.run.resources.wall_is_unbounded_spec() {
        seq![(NoteLevel::Info, wall_note())]
    } else {
        seq![]
    }) + (if cfg.env.allow_command_secrets {
        seq![(NoteLevel::Warn, command_secret_note())]
    } else {
        seq![]
    })
}

pub open spec fn run_reads(project: Project, home: Option<Seq<char>>) -> Seq<Seq<char>> {
    seq![path_join_seq(project.state_dir@, "venv"@), path_join_seq(project.cache_root@, "python"@)]
        + expanded(strs(project.config.run.fs.read@), home)
}

pub open spec fn run_writes(project: Project, home: Option<Seq<char>>) -> Seq<Seq<char>> {
    seq![
        path_join_seq(project.state_dir@, "scratch"@),
        path_join_seq(path_join_seq(project.state_dir@, "tmp"@), "run"@),
    ] + expanded(strs(project.config.run.fs.write@), home)
}

pub open spec fn run_env(project: Project, macos: bool) -> Seq<(Seq<char>, Seq<char>)> {
    let venv = path_join_seq(project.state_dir@, "venv"@);
    seq![
        ("VIRTUAL_ENV"@, venv),
        ("PATH"@, path_join_seq(venv, "bin"@) + ":"@ + system_path_spec(macos)),
        ("TMPDIR"@, path_join_seq(path_join_seq(project.state_dir@, "tmp"@), "run"@)),
        ("PYTHONHOME"@, seq![]),
    ]
}

/// The run boundary: the project's code, its directory writable, no
/// network unless opened, and an environment it cannot modify.
pub fn run_profile(
    project: &Project,
    phase: Phase,
    opts: &PlanOptions,
    home: Option<&str>,
    engine: &EngineParse,
    macos: bool,
) -> (r: Result<PhaseParts>)
    requires
        engine.covers(project.config),
    ensures
        r is Ok <==> ceilings_ok(project.config.run.resources, engine.run),
        r matches Err(e) ==> e matches SenvError::Sandbox(m) && m@ == ceilings_refusal(
            project.config.run.resources,
            engine.run,
        ),
        r matches Ok(parts) ==> {
            let p = parts.profile;
            let cfg = project.config;
            let c = ceilings_spec(
                cfg.run.resources,
                engine.run,
                RUN_DEFAULT_MEM,
                RUN_DEFAULT_PROCS,
                RUN_DEFAULT_WALL_SECS,
            );
            &&& p.name@ == "senv-run"@
            &&& p.base == IsolationClaim::Process
            &&& strs(p.fs_read@) == run_reads(*project, home_view(home))
            &&& strs(p.fs_write@) == run_writes(*project, home_view(home))
            &&& (cfg.run.net.is_host_spec() ==> p.net_mode == NetMode::Host && p.net_egress@.len()
                == 0)
            &&& (run_denied(cfg, *opts) ==> p.net_mode == NetMode::Deny && p.net_egress@.len()
                == 0)
            &&& (!cfg.run.net.is_host_spec() && !run_denied(cfg, *opts) ==> is_allowlist_of(
                p,
                run_hosts(cfg, *opts),
            ))
            &&& p.mem_bytes == c.mem_bytes && p.max_procs == Some(c.max_procs)
            &&& p.wall_secs == c.wall_secs
            &&& p.fsize_bytes == c.fsize_bytes && p.cpu_secs == c.cpu_secs
            &&& p.tools@.len() == 0
            &&& crate::trust::normalized(strs(p.env_pass@), strs(cfg.run.env.pass@))
            &&& grant_views(p.secret_grants@) == secret_grants_spec(cfg, phase)
            &&& strs(p.secrets@) == grant_views(p.secret_grants@).map_values(|g: GrantView| g.name)
            &&& p.allow_command_extractors == cfg.env.allow_command_secrets
            &&& parts.work@ == project.root@
            &&& env_views(parts.env@) == run_env(*project, macos)
            &&& note_views(parts.notes@) == run_notes(cfg, *opts)
        },
{
    let cfg = &project.config;
    let venv = project.venv();
    let scratch = project.scratch();
    let tmp = project.tmp("run");
    let python_dir = project.python_dir();
    let mut notes: Vec<Note> = Vec::new();
    let mut p = base_profile("senv-run", IsolationClaim::Process);
    p.fs_read.push(venv.clone());
    p.fs_read.push(python_dir);
    push_expanded(&mut p.fs_read, &cfg.run.fs.read, home);
    p.fs_write.push(scratch);
    p.fs_write.push(tmp.clone());
    push_expanded(&mut p.fs_write, &cfg.run.fs.write, home);
    let mut hosts = crate::text::clone_strings(cfg.run.net.hosts());
    let mut extra = crate::text::clone_strings(opts.extra_hosts.as_slice());
    let ghost h0 = hosts@;
    hosts.append(&mut extra);
    assert(strs(hosts@) =~= run_hosts(*cfg, *opts));
    if cfg.run.net.is_host() {
        p.net_mode = NetMode::Host;
        p.net_egress = Vec::new();
        notes.push(Note::warn(String::from_str(
            "[run] net = \"host\" — your code has unrestricted network access.",
        )));
    } else if hosts.len() == 0 || (cfg.run.net.is_deny() && opts.extra_hosts.len() == 0) {
        p.net_mode = NetMode::Deny;
        p.net_egress = Vec::new();
    } else {
        p.net_mode = NetMode::Deny;
        p.net_egress = hosts;
        if opts.extra_hosts.len() > 0 {
            let mut text = chars_of("--allow-net widened this run to ");
            let joined = crate::config::join_strings(opts.extra_hosts.as_slice(), ", ");
            extend_chars(&mut text, joined.as_slice());
            extend_str(&mut text, " (not saved; use `senv allow` to keep it)");
            notes.push(Note::info(string_of(text.as_slice())));
        }
    }
    let ghost net_notes = note_views(notes@);
    let c = ceilings(&cfg.run.resources, &engine.run, RUN_DEFAULT_MEM, RUN_DEFAULT_PROCS, RUN_DEFAULT_WALL_SECS)?;
    p.mem_bytes = c.mem_bytes;
    p.max_procs = Some(c.max_procs);
    p.wall_secs = c.wall_secs;
    p.fsize_bytes = c.fsize_bytes;
    p.cpu_secs = c.cpu_secs;
    if cfg.run.resources.wall.is_some() && !cfg.run.resources.wall_is_unbounded() {
        notes.push(Note::info(String::from_str(
            "[run.resources] wall is not enforced for `senv run` or `senv shell` — the interactive path has no deadline. It is enforced for installs. For a kernel-enforced ceiling on a runaway command, set [run.resources] cpu.",
        )));
    }
    p.env_pass = crate::order::sorted_unique(&cfg.run.env.pass);
    let grants = secret_grants(cfg, phase);
    let mut names: Vec<String> = Vec::new();
    let mut i: usize = 0;
    while i < grants.len()
        invariant
            i <= grants@.len(),
            strs(names@) == grant_views(grants@).map_values(|g: GrantView| g.name).take(i as int),
        decreases grants.len() - i,
    {
        let ghost before = names@;
        names.push(grants[i].name.clone());
        assert(strs(names@) =~= strs(before).push(grants@[i as int].name@));
        assert(grant_views(grants@).map_values(|g: GrantView| g.name).take(i + 1) =~= grant_views(grants@).map_values(|g: GrantView| g.name).take(i as int).push(grants@[i as int].name@));
        i = i + 1;
    }
    assert(grant_views(grants@).map_values(|g: GrantView| g.name).take(grants@.len() as int) =~= grant_views(grants@).map_values(|g: GrantView| g.name));
    p.secret_grants = grants;
    p.secrets = names;
    p.allow_command_extractors = cfg.env.allow_command_secrets;
    if p.allow_command_extractors {
        notes.push(Note::warn(String::from_str(
            "a secret uses a command: source, which runs host-side code outside the sandbox to mint the credential.",
        )));
    }
    assert(note_views(notes@) =~= run_notes(*cfg, *opts));
    let bin = path_join(venv.as_str(), "bin");
    let mut path = chars_of(bin.as_str());
    extend_str(&mut path, ":");
    let sp = system_path(macos);
    extend_str(&mut path, sp.as_str());
    let mut env: Vec<(String, String)> = Vec::new();
    env.push(pair("VIRTUAL_ENV", venv));
    env.push(pair("PATH", string_of(path.as_slice())));
    env.push(pair("TMPDIR", tmp));
    env.push(pair("PYTHONHOME", String::new()));
    assert(env_views(env@) =~= run_env(*project, macos));
    Ok(PhaseParts { profile: p, work: project.root.clone(), env, notes })
}

// ── tier selection ─────────────────────────────────────────────────────────

/// What the host can enforce, as probed before a policy is compiled.
#[derive(Debug, Clone)]
pub struct HostTiers {
    /// The supervised tier (private netns plus pinned egress) is usable.
    pub supervised: bool,
    /// The container tier is usable.
    pub container: bool,
    /// What the supervised tier reports as missing, if anything.
    pub supervisor_missing: Vec<String>,
    /// The host is macOS, whose supervised stack needs nothing installed.
    pub macos: bool,
}

/// How the choice of tier comes out.
pub enum TierOutcome {
    /// This tier, chosen silently.
    Chosen(IsolationClaim),
    /// The container tier, announced: the host cannot run the supervised one.
    ContainerFallback,
    /// The engine refused the configured tier's name.
    EngineRefused(Seq<char>),
    /// The configured tier cannot enforce the allowlist the policy needs.
    CannotEnforce,
    /// No usable tier can enforce the allowlist.
    NoTier,
}

/// Choose the isolation tier, fail-closed: senv never downgrades silently.
/// On Linux the process tier's network is all-or-nothing, so any allowlist
/// needs the supervised tier or an image-backed one.
pub open spec fn tier_outcome(cfg: Config, engine: EngineParse, needs_allowlist: bool, tiers: HostTiers) -> TierOutcome {
    if crate::config::isolation_requested(cfg) {
        match engine.isolation {
            Some(Ok(c)) => if needs_allowlist && c.rank() <= IsolationClaim::Process.rank() {
                TierOutcome::CannotEnforce
            } else {
                TierOutcome::Chosen(c)
            },
            Some(Err(m)) => TierOutcome::EngineRefused(m@),
            None => TierOutcome::Chosen(IsolationClaim::Process),
        }
    } else if !needs_allowlist {
        TierOutcome::Chosen(IsolationClaim::Process)
    } else if tiers.supervised {
        TierOutcome::Chosen(IsolationClaim::Supervised)
    } else if cfg.env.image is Some && tiers.container {
        TierOutcome::ContainerFallback
    } else {
        TierOutcome::NoTier
    }
}

pub open spec fn container_note() -> Seq<char> {
    "using the container tier: this host cannot run the supervised tier"@
}

/// What to do about a missing supervised tier, on this platform.
pub open spec fn supervisor_remedy_spec(macos: bool) -> Seq<char> {
    if macos {
        "On macOS the supervised tier needs only macOS's own Seatbelt (`sandbox-exec`) and the ability to bind loopback — nothing to install. An unusable tier here means something on this machine is blocking one of them (an MDM profile, or a security agent); the component list above names which."@
    } else {
        "Install the missing pieces (on Debian/Ubuntu: sudo apt install slirp4netns nftables)."@
    }
}

/// What to actually do about a missing supervised tier: on macOS there is
/// nothing to install, so the advice differs.
pub fn supervisor_remedy(macos: bool) -> (r: &'static str)
    ensures
        r@ == supervisor_remedy_spec(macos),
{
    if macos {
        "On macOS the supervised tier needs only macOS's own Seatbelt (`sandbox-exec`) and the ability to bind loopback — nothing to install. An unusable tier here means something on this machine is blocking one of them (an MDM profile, or a security agent); the component list above names which."
    } else {
        "Install the missing pieces (on Debian/Ubuntu: sudo apt install slirp4netns nftables)."
    }
}

pub open spec fn no_tier_fix(phase: Phase, cfg: Config, macos: bool) -> Seq<char> {
    if phase == Phase::Install && cfg.install.net == InstallNet::Registries {
        supervisor_remedy_spec(macos) + " Or set [install] net = \"host\" in senv.toml to install with unrestricted network access — a warned, recorded downgrade. Run `senv doctor` for the full picture."@
    } else {
        supervisor_remedy_spec(macos) + " Or drop the network allowlist. Run `senv doctor` for the full picture."@
    }
}

pub open spec fn no_tier_why(missing: Seq<Seq<char>>) -> Seq<char> {
    "senv will not pretend to restrict egress it cannot restrict."@ + if missing.len() == 0 {
        seq![]
    } else {
        "\n   the supervised tier needs:\n     - "@ + join_seq(missing, "\n     - "@)
    }
}

/// The refusal a host with no allowlist-capable tier gets: it says what is
/// missing and every way forward.
pub fn no_allowlist_tier_error(phase: Phase, cfg: &Config, tiers: &HostTiers) -> (e: SenvError)
    ensures
        e matches SenvError::Refused { what, why, fix } && what@
            == "this host cannot enforce a network allowlist for the "@ + phase.name() + " phase"@
            && why@ == no_tier_why(strs(tiers.supervisor_missing@)) && fix@ == no_tier_fix(
            phase,
            *cfg,
            tiers.macos,
        ),
{
    let mut why = chars_of("senv will not pretend to restrict egress it cannot restrict.");
    if tiers.supervisor_missing.len() > 0 {
        extend_str(&mut why, "\n   the supervised tier needs:\n     - ");
        let joined = crate::config::join_strings(tiers.supervisor_missing.as_slice(), "\n     - ");
        extend_chars(&mut why, joined.as_slice());
    }
    let mut fix = chars_of(supervisor_remedy(tiers.macos));
    let registries = match cfg.install.net {
        InstallNet::Registries => true,
        InstallNet::Host => false,
    };
    if phase == Phase::Install && registries {
        extend_str(
            &mut fix,
            " Or set [install] net = \"host\" in senv.toml to install with unrestricted network access — a warned, recorded downgrade. Run `senv doctor` for the full picture.",
        );
    } else {
        extend_str(&mut fix, " Or drop the network allowlist. Run `senv doctor` for the full picture.");
    }
    let mut what = chars_of("this host cannot enforce a network allowlist for the ");
    extend_str(&mut what, phase.as_str());
    extend_str(&mut what, " phase");
    SenvError::refused(string_of(what.as_slice()), string_of(why.as_slice()), string_of(fix.as_slice()))
}

/// An engine refusal turned into one that names the senv-level cause.
pub fn explain_tier_failure(engine_message: String, tier: IsolationClaim, phase: Phase) -> (e: SenvError)
    ensures
        e matches SenvError::Refused { what, why, fix } && what@ == "the "@ + phase.name()
            + " phase cannot run at the "@ + tier.name() + " tier on this host"@ && why
            == engine_message && fix@ == "run `senv doctor` to see what this host can enforce"@,
{
    let mut what = chars_of("the ");
    extend_str(&mut what, phase.as_str());
    extend_str(&mut what, " phase cannot run at the ");
    extend_str(&mut what, tier.as_str());
    extend_str(&mut what, " tier on this host");
    SenvError::refused(
        string_of(what.as_slice()),
        engine_message,
        String::from_str("run `senv doctor` to see what this host can enforce"),
    )
}

pub open spec fn cannot_enforce_why() -> Seq<char> {
    "the process tier's network is all-or-nothing: it can deny everything or allow everything, but it cannot restrict egress to named hosts"@
}

pub open spec fn cannot_enforce_fix() -> Seq<char> {
    "use isolation = \"supervised\" (or \"container\" with an image), or drop the allowlist"@
}

/// Choose the isolation tier for a phase.
pub fn select_tier(
    cfg: &Config,
    engine: &EngineParse,
    phase: Phase,
    needs_allowlist: bool,
    tiers: &HostTiers,
    notes: &mut Vec<Note>,
) -> (r: Result<IsolationClaim>)
    requires
        engine.covers(*cfg),
    ensures
        match tier_outcome(*cfg, *engine, needs_allowlist, *tiers) {
            TierOutcome::Chosen(c) => r == Ok::<IsolationClaim, SenvError>(c),
            TierOutcome::ContainerFallback => r == Ok::<IsolationClaim, SenvError>(IsolationClaim::Container),
            TierOutcome::EngineRefused(m) => r matches Err(SenvError::Sandbox(t)) && t@ == m,
            TierOutcome::CannotEnforce => r matches Err(SenvError::Refused { why, fix, .. })
                && why@ == cannot_enforce_why() && fix@ == cannot_enforce_fix(),
            TierOutcome::NoTier => r matches Err(SenvError::Refused { fix, .. }) && fix@
                == no_tier_fix(phase, *cfg, tiers.macos),
        },
        note_views(final(notes)@) == note_views(old(notes)@) + if tier_outcome(
            *cfg,
            *engine,
            needs_allowlist,
            *tiers,
        ) is ContainerFallback {
            seq![(NoteLevel::Info, container_note())]
        } else {
            seq![]
        },
{
    let ghost start = note_views(notes@);
    if let Some(explicit) = &cfg.env.isolation {
        let raw = chars_of(explicit.as_str());
        let t = crate::text::trim(raw.as_slice());
        let auto = chars_of("auto");
        if !crate::text::eq_ignore_ascii_case(t.as_slice(), auto.as_slice()) {
            let claim = match &engine.isolation {
                Some(Ok(c)) => *c,
                Some(Err(m)) => {
                    assert(note_views(notes@) =~= start + seq![]);
                    return Err(SenvError::Sandbox(m.clone()));
                },
                None => IsolationClaim::Process,
            };
            if needs_allowlist && claim.rank_of() <= IsolationClaim::Process.rank_of() {
                let mut what = chars_of("[env] isolation = \"");
                extend_chars(&mut what, t.as_slice());
                extend_str(&mut what, "\" cannot enforce a network allowlist");
                assert(note_views(notes@) =~= start + seq![]);
                return Err(SenvError::refused(
                    string_of(what.as_slice()),
                    String::from_str(
                        "the process tier's network is all-or-nothing: it can deny everything or allow everything, but it cannot restrict egress to named hosts",
                    ),
                    String::from_str(
                        "use isolation = \"supervised\" (or \"container\" with an image), or drop the allowlist",
                    ),
                ));
            }
            assert(note_views(notes@) =~= start + seq![]);
            return Ok(claim);
        }
    }
    assert(note_views(notes@) =~= start + seq![]);
    if !needs_allowlist {
        return Ok(IsolationClaim::Process);
    }
    if tiers.supervised {
        return Ok(IsolationClaim::Supervised);
    }
    if cfg.env.image.is_some() && tiers.container {
        notes.push(Note::info(String::from_str(
            "using the container tier: this host cannot run the supervised tier",
        )));
        assert(note_views(notes@) =~= start + seq![(NoteLevel::Info, container_note())]);
        return Ok(IsolationClaim::Container);
    }
    Err(no_allowlist_tier_error(phase, cfg, tiers))
}

// ── compiling a phase ──────────────────────────────────────────────────────

/// The phase's resource strings were all accepted.
pub open spec fn phase_ok(project: Project, phase: Phase, engine: EngineParse) -> bool {
    match phase {
        Phase::Provision => true,
        Phase::Install => ceilings_ok(project.config.install.resources, engine.install),
        _ => ceilings_ok(project.config.run.resources, engine.run),
    }
}

/// The read grants a phase adds, before repeats are removed.
pub open spec fn phase_reads(project: Project, phase: Phase, opts: PlanOptions, home: Option<Seq<char>>) -> Seq<Seq<char>> {
    match phase {
        Phase::Provision => opt_list(opts.uv),
        Phase::Install => install_reads(project, opts, home),
        _ => run_reads(project, home),
    }
}

/// The write grants a phase adds, before repeats are removed.
pub open spec fn phase_writes(project: Project, phase: Phase, home: Option<Seq<char>>) -> Seq<Seq<char>> {
    match phase {
        Phase::Provision => seq![
            path_join_seq(project.cache_root@, "python"@),
            path_join_seq(path_join_seq(project.state_dir@, "tmp"@), "provision"@),
        ],
        Phase::Install => install_writes(project),
        _ => run_writes(project, home),
    }
}

/// The hosts a phase may reach; empty for "deny" and for "host".
pub open spec fn phase_egress(project: Project, phase: Phase, opts: PlanOptions) -> Seq<Seq<char>> {
    let cfg = project.config;
    match phase {
        Phase::Provision => python_download_hosts(),
        Phase::Install => if cfg.install.net == InstallNet::Registries {
            pypi_hosts() + strs(cfg.install.extra_indexes@)
        } else {
            seq![]
        },
        _ => if cfg.run.net.is_host_spec() || run_denied(cfg, opts) {
            seq![]
        } else {
            run_hosts(cfg, opts)
        },
    }
}

/// The phase's network is unrestricted.
pub open spec fn phase_open(project: Project, phase: Phase) -> bool {
    match phase {
        Phase::Provision => false,
        Phase::Install => project.config.install.net == InstallNet::Host,
        _ => project.config.run.net.is_host_spec(),
    }
}

/// A policy compiled for one phase, before the engine validates and
/// resolves it.
#[derive(Debug, Clone)]
pub struct Compiled {
    pub phase: Phase,
    pub profile: PhaseProfile,
    pub tier: IsolationClaim,
    /// The image an image-backed tier runs from.
    pub image: Option<String>,
    /// The working directory is granted read-only: the engine grants it
    /// read-write implicitly, so this switch is what makes the install phase
    /// unable to edit the project.
    pub work_readonly: bool,
    pub work: String,
    pub env: Vec<(String, String)>,
    pub notes: Vec<Note>,
}

/// The tier an outcome settles on, if it settles.
pub open spec fn chosen_tier(o: TierOutcome) -> Option<IsolationClaim> {
    match o {
        TierOutcome::Chosen(c) => Some(c),
        TierOutcome::ContainerFallback => Some(IsolationClaim::Container),
        _ => None,
    }
}

/// Compile the policy for `phase`: the phase's profile with repeated grants
/// removed, the tier that can enforce it, and whether the working directory
/// is read-only.
pub fn compile(
    project: &Project,
    phase: Phase,
    opts: &PlanOptions,
    home: Option<&str>,
    engine: &EngineParse,
    tiers: &HostTiers,
) -> (r: Result<Compiled>)
    requires
        engine.covers(project.config),
    ensures
        !phase_ok(*project, phase, *engine) ==> r is Err,
        phase_ok(*project, phase, *engine) ==> (r is Ok <==> chosen_tier(
            tier_outcome(
                project.config,
                *engine,
                phase_egress(*project, phase, *opts).len() > 0,
                *tiers,
            ),
        ) is Some),
        r matches Ok(c) ==> {
            &&& c.phase == phase
            &&& strs(c.profile.fs_read@) == first_occurrences(
                phase_reads(*project, phase, *opts, home_view(home)),
            )
            &&& strs(c.profile.fs_write@) == first_occurrences(
                phase_writes(*project, phase, home_view(home)),
            )
            &&& strs(c.profile.net_egress@) == phase_egress(*project, phase, *opts)
            &&& c.profile.net_mode == (if phase_open(*project, phase) {
                NetMode::Host
            } else {
                NetMode::Deny
            })
            &&& (c.profile.net_egress@.len() > 0 ==> c.profile.net_mode == NetMode::Deny)
            &&& grant_views(c.profile.secret_grants@) == secret_grants_spec(project.config, phase)
            &&& Some(c.tier) == chosen_tier(
                tier_outcome(
                    project.config,
                    *engine,
                    phase_egress(*project, phase, *opts).len() > 0,
                    *tiers,
                ),
            )
            &&& c.image == (if c.tier.is_image_backed() {
                project.config.env.image
            } else {
                None
            })
            &&& c.work_readonly == (phase == Phase::Install && !install_writes_work(
                *project,
                *opts,
            ))
            &&& forall|i: int, j: int|
                0 <= i < j < c.profile.fs_read@.len() ==> c.profile.fs_read@[i]@
                    != c.profile.fs_read@[j]@
            &&& forall|i: int, j: int|
                0 <= i < j < c.profile.fs_write@.len() ==> c.profile.fs_write@[i]@
                    != c.profile.fs_write@[j]@
            &&& (phase.run_like() && !expanded(strs(project.config.run.fs.write@), home_view(home)).contains(
                path_join_seq(project.state_dir@, "venv"@),
            ) ==> strs(c.profile.fs_read@).contains(path_join_seq(project.state_dir@, "venv"@))
                && !strs(c.profile.fs_write@).contains(path_join_seq(project.state_dir@, "venv"@)))
        },
{
    let parts = match phase {
        Phase::Provision => provision_profile(project, opts, tiers.macos),
        Phase::Install => install_profile(project, opts, home, engine, tiers.macos)?,
        Phase::Run | Phase::Shell => run_profile(project, phase, opts, home, engine, tiers.macos)?,
    };
    let mut profile = parts.profile;
    proof {
        assert(strs(profile.net_egress@) =~= phase_egress(*project, phase, *opts));
        if phase == Phase::Install || phase == Phase::Provision {
            assert(secret_grants_spec(project.config, phase) =~= seq![]);
            assert(grant_views(profile.secret_grants@) =~= seq![]);
        }
    }
    dedup_grants(&mut profile);
    proof {
        lemma_first_occurrences_unique(phase_reads(*project, phase, *opts, home_view(home)));
        lemma_first_occurrences_unique(phase_writes(*project, phase, home_view(home)));
        let rd = strs(profile.fs_read@);
        let wr = strs(profile.fs_write@);
        assert forall|i: int, j: int| 0 <= i < j < profile.fs_read@.len() implies profile.fs_read@[i]@ != profile.fs_read@[j]@ by {
            assert(rd[i] == profile.fs_read@[i]@ && rd[j] == profile.fs_read@[j]@);
        }
        assert forall|i: int, j: int| 0 <= i < j < profile.fs_write@.len() implies profile.fs_write@[i]@ != profile.fs_write@[j]@ by {
            assert(wr[i] == profile.fs_write@[i]@ && wr[j] == profile.fs_write@[j]@);
        }
        if phase.run_like() && !expanded(strs(project.config.run.fs.write@), home_view(home)).contains(path_join_seq(project.state_dir@, "venv"@)) {
            lemma_run_writes_miss_the_environment(*project, home_view(home));
        }
    }
    let mut notes = parts.notes;
    let needs_allowlist = profile.net_egress.len() > 0;
    let tier = select_tier(&project.config, engine, phase, needs_allowlist, tiers, &mut notes)?;
    let image = if tier.image_backed() {
        clone_opt(&project.config.env.image)
    } else {
        None
    };
    let work_readonly = phase == Phase::Install && !project_writable(project, opts);
    Ok(Compiled { phase, profile, tier, image, work_readonly, work: parts.work, env: parts.env, notes })
}

proof fn lemma_join_len(a: Seq<char>, b: Seq<char>)
    requires
        b.len() > 0,
        b[0] != '/',
    ensures
        path_join_seq(a, b).len() == a.len() + b.len() + (if a.len() == 0 || a.last() == '/' {
            0int
        } else {
            1int
        }),
        path_join_seq(a, b).last() == b.last(),
{
}

/// Every configured `[run.fs] write` entry, tilde-expanded, is among the
/// write grants of the run and shell phases, both in the phase's grants and
/// in the compiled profile (each path once).
pub proof fn lemma_configured_writes_granted(project: Project, phase: Phase, home: Option<Seq<char>>, i: int)
    requires
        phase == Phase::Run || phase == Phase::Shell,
        0 <= i < project.config.run.fs.write@.len(),
    ensures
        run_writes(project, home).contains(expand_tilde_seq(project.config.run.fs.write@[i]@, home)),
        first_occurrences(phase_writes(project, phase, home)).contains(
            expand_tilde_seq(project.config.run.fs.write@[i]@, home),
        ),
{
    let x = expand_tilde_seq(project.config.run.fs.write@[i]@, home);
    let ex = expanded(strs(project.config.run.fs.write@), home);
    assert(strs(project.config.run.fs.write@)[i] == project.config.run.fs.write@[i]@);
    assert(ex[i] == x);
    let w = run_writes(project, home);
    assert(w[i + 2] == x);
    assert(phase_writes(project, phase, home) == w);
    lemma_first_occurrences_unique(w);
}

/// Every configured `[run.fs] read` entry, tilde-expanded, is among the
/// read grants of the run phase.
pub proof fn lemma_configured_reads_granted(project: Project, home: Option<Seq<char>>, i: int)
    requires
        0 <= i < project.config.run.fs.read@.len(),
    ensures
        run_reads(project, home).contains(expand_tilde_seq(project.config.run.fs.read@[i]@, home)),
{
    let x = expand_tilde_seq(project.config.run.fs.read@[i]@, home);
    let ex = expanded(strs(project.config.run.fs.read@), home);
    assert(strs(project.config.run.fs.read@)[i] == project.config.run.fs.read@[i]@);
    assert(ex[i] == x);
    assert(run_reads(project, home)[i + 2] == x);
}

/// The environment the run phase reads is none of the paths the run phase
/// itself writes: its scratch and temp directories are other names under
/// the same state directory.
pub proof fn lemma_run_writes_miss_the_environment(project: Project, home: Option<Seq<char>>)
    requires
        !expanded(strs(project.config.run.fs.write@), home).contains(
            path_join_seq(project.state_dir@, "venv"@),
        ),
    ensures
        run_reads(project, home).contains(path_join_seq(project.state_dir@, "venv"@)),
        !run_writes(project, home).contains(path_join_seq(project.state_dir@, "venv"@)),
{
    let sd = project.state_dir@;
    let venv = path_join_seq(sd, "venv"@);
    reveal_strlit("venv");
    reveal_strlit("scratch");
    reveal_strlit("tmp");
    reveal_strlit("run");
    lemma_join_len(sd, "venv"@);
    lemma_join_len(sd, "scratch"@);
    lemma_join_len(sd, "tmp"@);
    lemma_join_len(path_join_seq(sd, "tmp"@), "run"@);
    let scratch = path_join_seq(sd, "scratch"@);
    let tmp = path_join_seq(path_join_seq(sd, "tmp"@), "run"@);
    assert(scratch.len() != venv.len());
    assert(tmp.len() != venv.len());
    assert(run_reads(project, home)[0] == venv);
    let w = run_writes(project, home);
    let ex = expanded(strs(project.config.run.fs.write@), home);
    if w.contains(venv) {
        let k = choose|k: int| 0 <= k < w.len() && w[k] == venv;
        if k >= 2 {
            assert(ex[k - 2] == venv);
        }
    }
}

} // verus!
