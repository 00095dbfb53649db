//! `senv.toml` — the project's policy source, and the checks that refuse a
//! configuration before any policy is compiled from it.
//!
//! Every field is optional; a project with no `senv.toml` gets the
//! fail-closed defaults. Parsing the file is done outside this module (the
//! schema rejects unknown keys); what arrives here is the parsed value.

use vstd::prelude::*;
use crate::error::{Result, SenvError};
use crate::text::{
    strs, opt_str,
    ascii_alnum, chars_of, eq_ignore_ascii_case, eq_ignore_ascii_case_seq, extend_chars,
    extend_str, is_ascii_alnum, last_index_of, rfind_char, slice_of, starts_with,
    starts_with_seq, string_of, strip_prefix_all, trim, trim_seq, trim_start_matches,
};
use crate::util::{byte_len, sanitize_chars, sanitize_seq};

verus! {

/// The file name senv looks for.
pub const CONFIG_FILE: &'static str = "senv.toml";

/// `"deny"` or `"host"`.
#[derive(Debug, Clone, Copy, PartialEq, Eq, Structural)]
pub enum NetWord {
    /// No network at all. The default for the run phase.
    Deny,
    /// Unrestricted network. Always announced.
    Host,
}

/// What a phase may reach on the network.
#[derive(Debug, Clone)]
pub enum NetSpec {
    /// `"deny"` or `"host"`.
    Mode(NetWord),
    /// An explicit domain allowlist.
    Hosts(Vec<String>),
}

/// Where the wheel cache lives.
#[derive(Debug, Clone, Copy, PartialEq, Eq, Structural)]
pub enum CacheScope {
    /// One cache per project, under senv's state directory. The default.
    Project,
    /// One cache shared by every senv project on this machine.
    Shared,
}

/// Install-phase egress.
#[derive(Debug, Clone, Copy, PartialEq, Eq, Structural)]
pub enum InstallNet {
    /// Egress limited to the package indexes. The default.
    Registries,
    /// Unrestricted egress during installs. Never selected automatically.
    Host,
}

#[derive(Debug, Clone)]
pub struct Config {
    pub env: EnvSection,
    pub install: InstallSection,
    pub run: RunSection,
    /// Secret grants, by the environment-variable name the child receives,
    /// in ascending name order with no name twice (the order of the table
    /// they are read from).
    pub secrets: Vec<(String, SecretSection)>,
}

#[derive(Debug, Clone)]
pub struct EnvSection {
    pub python: Option<String>,
    pub isolation: Option<String>,
    pub image: Option<String>,
    pub uv: Option<String>,
    pub allow_command_secrets: bool,
}

#[derive(Debug, Clone)]
pub struct InstallSection {
    pub extra_indexes: Vec<String>,
    pub net: InstallNet,
    pub cache: CacheScope,
    pub read: Vec<String>,
    pub project_writable: bool,
    pub resources: ResourceSection,
}

#[derive(Debug, Clone)]
pub struct RunSection {
    pub net: NetSpec,
    pub fs: FsSection,
    pub env: RunEnvSection,
    pub resources: ResourceSection,
}

#[derive(Debug, Clone)]
pub struct FsSection {
    pub read: Vec<String>,
    pub write: Vec<String>,
}

#[derive(Debug, Clone)]
pub struct RunEnvSection {
    pub pass: Vec<String>,
}

#[derive(Debug, Clone)]
pub struct ResourceSection {
    pub mem: Option<String>,
    pub wall: Option<String>,
    pub procs: Option<u64>,
    pub fsize: Option<String>,
    pub cpu: Option<String>,
}

#[derive(Debug, Clone)]
pub struct SecretSection {
    pub source: Option<String>,
    pub inject: Option<String>,
    pub ttl: Option<String>,
    pub phases: Vec<String>,
}

impl NetSpec {
    pub fn deny() -> (r: NetSpec)
        ensures
            r == NetSpec::Mode(NetWord::Deny),
    {
        NetSpec::Mode(NetWord::Deny)
    }

    /// The allowlist, empty for `"deny"` and `"host"`.
    pub open spec fn hosts_spec(&self) -> Seq<Seq<char>> {
        match self {
            NetSpec::Hosts(h) => strs(h@),
            NetSpec::Mode(_) => seq![],
        }
    }

    pub fn hosts(&self) -> (r: &[String])
        ensures
            strs(r@) == self.hosts_spec(),
            r@.len() == self.hosts_spec().len(),
    {
        match self {
            NetSpec::Hosts(h) => h.as_slice(),
            NetSpec::Mode(_) => {
                let e: &[String] = &[];
                assert(strs(e@) =~= seq![]);
                e
            },
        }
    }

    pub open spec fn is_host_spec(&self) -> bool {
        self matches NetSpec::Mode(NetWord::Host)
    }

    pub open spec fn is_deny_spec(&self) -> bool {
        self matches NetSpec::Mode(NetWord::Deny)
    }

    pub fn is_host(&self) -> (b: bool)
        ensures
            b == self.is_host_spec(),
    {
        matches!(self, NetSpec::Mode(NetWord::Host))
    }

    pub fn is_deny(&self) -> (b: bool)
        ensures
            b == self.is_deny_spec(),
    {
        matches!(self, NetSpec::Mode(NetWord::Deny))
    }

    /// How this reads in `senv status`.
    pub open spec fn describe_spec(&self) -> Seq<char> {
        match self {
            NetSpec::Mode(NetWord::Deny) => "deny (no network)"@,
            NetSpec::Mode(NetWord::Host) => "host (UNRESTRICTED)"@,
            NetSpec::Hosts(h) => if h@.len() == 0 {
                "deny (empty allowlist)"@
            } else {
                "allowlist: "@ + crate::util::join_seq(strs(h@), ", "@)
            },
        }
    }

    pub fn describe(&self) -> (r: String)
        ensures
            r@ == self.describe_spec(),
    {
        match self {
            NetSpec::Mode(NetWord::Deny) => String::from_str("deny (no network)"),
            NetSpec::Mode(NetWord::Host) => String::from_str("host (UNRESTRICTED)"),
            NetSpec::Hosts(h) => {
                if h.len() == 0 {
                    String::from_str("deny (empty allowlist)")
                } else {
                    let mut out = chars_of("allowlist: ");
                    let joined = join_strings(h.as_slice(), ", ");
                    extend_chars(&mut out, joined.as_slice());
                    string_of(out.as_slice())
                }
            },
        }
    }
}

/// `parts` joined with `sep`.
pub fn join_strings(parts: &[String], sep: &str) -> (r: Vec<char>)
    ensures
        r@ == crate::util::join_seq(strs(parts@), sep@),
{
    let mut out: Vec<char> = Vec::new();
    let mut i: usize = 0;
    let ghost all = strs(parts@);
    while i < parts.len()
        invariant
            i <= parts.len(),
            all == strs(parts@),
            out@ == crate::util::join_seq(all.take(i as int), sep@),
        decreases parts.len() - i,
    {
        let ghost before = out@;
        if i > 0 {
            extend_str(&mut out, sep);
        }
        extend_str(&mut out, parts[i].as_str());
        proof {
            assert(all.take(i + 1).drop_last() =~= all.take(i as int));
            assert(all.take(i + 1).last() == parts@[i as int]@);
            if i == 0 {
                assert(out@ =~= parts@[0]@);
            } else {
                assert(out@ =~= before + sep@ + parts@[i as int]@);
            }
        }
        i = i + 1;
    }
    assert(all.take(parts.len() as int) =~= all);
    out
}

impl ResourceSection {
    pub open spec fn wall_is_unbounded_spec(&self) -> bool {
        self.wall matches Some(w) && eq_ignore_ascii_case_seq(w@, "none"@)
    }

    /// `wall = "none"` — the escape hatch for dev servers and watchers.
    pub fn wall_is_unbounded(&self) -> (b: bool)
        ensures
            b == self.wall_is_unbounded_spec(),
    {
        match &self.wall {
            Some(w) => {
                let wv = chars_of(w.as_str());
                let none = chars_of("none");
                eq_ignore_ascii_case(wv.as_slice(), none.as_slice())
            },
            None => false,
        }
    }

    /// No limits set.
    pub fn empty() -> (r: ResourceSection)
        ensures
            r.mem is None && r.wall is None && r.procs is None && r.fsize is None && r.cpu is None,
    {
        ResourceSection { mem: None, wall: None, procs: None, fsize: None, cpu: None }
    }
}

impl Config {
    /// The fail-closed defaults: nothing granted beyond senv's own baseline.
    pub open spec fn is_default(&self) -> bool {
        &&& self.env.python is None && self.env.isolation is None && self.env.image is None
        &&& self.env.uv is None && !self.env.allow_command_secrets
        &&& self.install.extra_indexes@.len() == 0 && self.install.net == InstallNet::Registries
        &&& self.install.cache == CacheScope::Project && self.install.read@.len() == 0
        &&& !self.install.project_writable
        &&& resources_unset(self.install.resources)
        &&& self.run.net is Mode && self.run.net->Mode_0 == NetWord::Deny
        &&& self.run.fs.read@.len() == 0 && self.run.fs.write@.len() == 0
        &&& self.run.env.pass@.len() == 0 && resources_unset(self.run.resources)
        &&& self.secrets@.len() == 0
    }

    /// The configuration of a project without a `senv.toml`.
    pub fn defaults() -> (r: Config)
        ensures
            r.is_default(),
            r.secrets_well_formed(),
    {
        Config {
            env: EnvSection {
                python: None,
                isolation: None,
                image: None,
                uv: None,
                allow_command_secrets: false,
            },
            install: InstallSection {
                extra_indexes: Vec::new(),
                net: InstallNet::Registries,
                cache: CacheScope::Project,
                read: Vec::new(),
                project_writable: false,
                resources: ResourceSection::empty(),
            },
            run: RunSection {
                net: NetSpec::deny(),
                fs: FsSection { read: Vec::new(), write: Vec::new() },
                env: RunEnvSection { pass: Vec::new() },
                resources: ResourceSection::empty(),
            },
            secrets: Vec::new(),
        }
    }
}

pub open spec fn resources_unset(r: ResourceSection) -> bool {
    r.mem is None && r.wall is None && r.procs is None && r.fsize is None && r.cpu is None
}

impl Default for Config {
    fn default() -> (r: Config)
        ensures
            r.is_default(),
    {
        Config::defaults()
    }
}

/// Where `senv.toml` lives for a project root.
pub fn config_path(root: &str) -> (r: String)
    ensures
        r@ == crate::text::path_join_seq(root@, CONFIG_FILE@),
{
    crate::text::path_join(root, CONFIG_FILE)
}

// ── host patterns ──────────────────────────────────────────────────────────

/// Decimal value of a run of ASCII digits.
pub open spec fn digits_value(d: Seq<char>) -> nat
    decreases d.len(),
{
    if d.len() == 0 {
        0
    } else {
        digits_value(d.drop_last()) * 10 + ((d.last() as u32) - ('0' as u32)) as nat
    }
}

pub open spec fn all_digits(d: Seq<char>) -> bool {
    forall|i: int| 0 <= i < d.len() ==> '0' <= #[trigger] d[i] && d[i] <= '9'
}

/// `p.parse::<u16>()` succeeds: an optional `+`, then at least one digit,
/// and a value no larger than 65535.
pub open spec fn parses_as_u16(p: Seq<char>) -> bool {
    let d = unsigned_digits(p);
    d.len() > 0 && all_digits(d) && digits_value(d) <= 65535
}

/// The digits of an unsigned number's text: an optional leading `+` dropped.
pub open spec fn unsigned_digits(p: Seq<char>) -> Seq<char> {
    if p.len() > 0 && p[0] == '+' {
        p.drop_first()
    } else {
        p
    }
}

/// The part of an egress entry before its last `:`, or all of it.
pub open spec fn host_part(entry: Seq<char>) -> Seq<char> {
    match last_index_of(entry, ':') {
        Some(k) => entry.take(k),
        None => entry,
    }
}

/// The host of an egress entry with its wildcard prefixes removed.
pub open spec fn bare_host(entry: Seq<char>) -> Seq<char> {
    strip_prefix_all(strip_prefix_all(host_part(entry), "*."@), "."@)
}

#[verifier::loop_isolation(false)]
fn is_u16_text(p: &[char]) -> (b: bool)
    ensures
        b == parses_as_u16(p@),
{
    let start: usize = if p.len() > 0 && p[0] == '+' {
        1
    } else {
        0
    };
    let ghost d = unsigned_digits(p@);
    assert(d =~= p@.skip(start as int));
    if start >= p.len() {
        return false;
    }
    let mut i = start;
    let mut v: u32 = 0;
    while i < p.len()
        invariant
            start <= i <= p.len(),
            d == p@.skip(start as int),
            all_digits(p@.subrange(start as int, i as int)),
            (v <= 65535 && v == digits_value(p@.subrange(start as int, i as int))) || (v == 70000
                && digits_value(p@.subrange(start as int, i as int)) > 65535),
        decreases p.len() - i,
    {
        let c = p[i];
        if !('0' <= c && c <= '9') {
            assert(d[i - start] == c);
            assert(!all_digits(d));
            return false;
        }
        let ghost pre = p@.subrange(start as int, i as int);
        assert(p@.subrange(start as int, i + 1).drop_last() =~= pre);
        assert(p@.subrange(start as int, i + 1).last() == c);
        let dig = c as u32 - '0' as u32;
        if v <= 65535 {
            let nv = v * 10 + dig;
            v = if nv > 65535 {
                70000
            } else {
                nv
            };
        }
        assert(all_digits(p@.subrange(start as int, i + 1)));
        i = i + 1;
    }
    assert(p@.subrange(start as int, p.len() as int) =~= d);
    v <= 65535
}

/// Characters a hostname may contain.
pub open spec fn is_host_char(c: char) -> bool {
    is_ascii_alnum(c) || c == '.' || c == '-' || c == '_'
}

/// Why an egress entry is refused, or `None` when it is acceptable: `host`,
/// `.suffix.example` or `*.suffix.example`, each optionally with `:port`,
/// and never a wildcard over a single label.
pub open spec fn host_pattern_error(raw: Seq<char>) -> Option<Seq<char>> {
    let entry = trim_seq(raw);
    if entry.len() == 0 {
        Some("an empty host entry allowlists nothing and reads as though it did"@)
    } else {
        let colon = last_index_of(entry, ':');
        let host = host_part(entry);
        let bad_port = match colon {
            Some(k) => !parses_as_u16(entry.skip(k + 1)),
            None => false,
        };
        if bad_port {
            let k = colon->0;
            Some("'"@ + entry + "': '"@ + entry.skip(k + 1) + "' is not a port number"@)
        } else {
            {
                let bare = bare_host(entry);
                let wildcarded = starts_with_seq(host, "."@) || starts_with_seq(host, "*."@);
                if bare.len() == 0 {
                    Some("'"@ + entry + "' names no host"@)
                } else if wildcarded && !crate::text::contains_seq(bare, "."@) {
                    Some(
                        "'"@ + entry
                            + "' would allowlist an entire top-level domain — use a wildcard with at least two labels, e.g. '*."@
                            + bare + ".example'"@,
                    )
                } else if !(forall|i: int| 0 <= i < bare.len() ==> is_host_char(#[trigger] bare[i])) {
                    Some("'"@ + entry + "' is not a hostname"@)
                } else {
                    None
                }
            }
        }
    }
}

/// Check an egress entry the way the allowlist proxy will parse it, so a bad
/// pattern is refused where the user can see it rather than at run time.
#[verifier::loop_isolation(false)]
pub fn validate_host_pattern(raw: &str) -> (r: core::result::Result<(), String>)
    ensures
        r is Ok <==> host_pattern_error(raw@) is None,
        r matches Err(e) ==> host_pattern_error(raw@) == Some(e@),
{
    let rv = chars_of(raw);
    let entry = trim(rv.as_slice());
    if entry.len() == 0 {
        return Err(String::from_str("an empty host entry allowlists nothing and reads as though it did"));
    }
    let colon = rfind_char(entry.as_slice(), ':');
    let host = match colon {
        Some(k) => slice_of(entry.as_slice(), 0, k),
        None => slice_of(entry.as_slice(), 0, entry.len()),
    };
    proof {
        assert(entry@.subrange(0, entry@.len() as int) =~= entry@);
        if let Some(k) = colon {
            assert(entry@.subrange(0, k as int) =~= entry@.take(k as int));
        }
    }
    if let Some(k) = colon {
        let port = slice_of(entry.as_slice(), k + 1, entry.len());
        assert(port@ =~= entry@.skip(k + 1));
        if !is_u16_text(port.as_slice()) {
            let mut m = chars_of("'");
            extend_chars(&mut m, entry.as_slice());
            extend_str(&mut m, "': '");
            extend_chars(&mut m, port.as_slice());
            extend_str(&mut m, "' is not a port number");
            return Err(string_of(m.as_slice()));
        }
    }
    let star_dot = chars_of("*.");
    let dot = chars_of(".");
    let stripped = trim_start_matches(host.as_slice(), star_dot.as_slice());
    let bare = trim_start_matches(stripped.as_slice(), dot.as_slice());
    let wildcarded = starts_with(host.as_slice(), dot.as_slice()) || starts_with(
        host.as_slice(),
        star_dot.as_slice(),
    );
    if bare.len() == 0 {
        let mut m = chars_of("'");
        extend_chars(&mut m, entry.as_slice());
        extend_str(&mut m, "' names no host");
        return Err(string_of(m.as_slice()));
    }
    if wildcarded && !crate::text::contains(bare.as_slice(), dot.as_slice()) {
        let mut m = chars_of("'");
        extend_chars(&mut m, entry.as_slice());
        extend_str(
            &mut m,
            "' would allowlist an entire top-level domain — use a wildcard with at least two labels, e.g. '*.",
        );
        extend_chars(&mut m, bare.as_slice());
        extend_str(&mut m, ".example'");
        return Err(string_of(m.as_slice()));
    }
    let mut i: usize = 0;
    while i < bare.len()
        invariant
            i <= bare.len(),
            forall|t: int| 0 <= t < i ==> is_host_char(#[trigger] bare@[t]),
        decreases bare.len() - i,
    {
        let c = bare[i];
        if !(ascii_alnum(c) || c == '.' || c == '-' || c == '_') {
            assert(!is_host_char(bare@[i as int]));
            let mut m = chars_of("'");
            extend_chars(&mut m, entry.as_slice());
            extend_str(&mut m, "' is not a hostname");
            return Err(string_of(m.as_slice()));
        }
        i = i + 1;
    }
    Ok(())
}

// ── python requests ────────────────────────────────────────────────────────

/// Characters a version request may contain.
pub open spec fn is_version_char(c: char) -> bool {
    is_ascii_alnum(c) || c == '.' || c == '-' || c == '+'
}

/// Why a requested Python version is refused, or `None`: it must begin with
/// a digit (so it can never be read as a uv flag), be at most 64 bytes, and
/// hold only letters, digits, `.`, `-` and `+`.
pub open spec fn python_request_error(raw: Seq<char>) -> Option<Seq<char>> {
    let v = trim_seq(raw);
    if v.len() == 0 {
        Some("is empty"@)
    } else if byte_len(v) > 64 {
        Some("is implausibly long for a version"@)
    } else if !('0' <= v[0] && v[0] <= '9') {
        Some(
            "'"@ + sanitize_seq(v)
                + "' is not a version number. senv only accepts requests beginning with a digit (e.g. 3.13, 3.13.2), because this value becomes an argument to uv and a leading '-' would be read as a flag."@,
        )
    } else if !(forall|i: int| 0 <= i < v.len() ==> is_version_char(#[trigger] v[i])) {
        Some("'"@ + sanitize_seq(v) + "' contains characters a version does not"@)
    } else {
        None
    }
}

/// Check a requested Python version before it becomes a `uv` argument.
#[verifier::loop_isolation(false)]
pub fn validate_python_request(raw: &str) -> (r: core::result::Result<(), String>)
    ensures
        r is Ok <==> python_request_error(raw@) is None,
        r matches Err(e) ==> python_request_error(raw@) == Some(e@),
{
    let rv = chars_of(raw);
    let v = trim(rv.as_slice());
    if v.len() == 0 {
        return Err(String::from_str("is empty"));
    }
    let vs = string_of(v.as_slice());
    if vs.as_str().as_bytes().len() > 64 {
        return Err(String::from_str("is implausibly long for a version"));
    }
    if !('0' <= v[0] && v[0] <= '9') {
        let mut m = chars_of("'");
        let clean = sanitize_chars(v.as_slice());
        extend_chars(&mut m, clean.as_slice());
        extend_str(
            &mut m,
            "' is not a version number. senv only accepts requests beginning with a digit (e.g. 3.13, 3.13.2), because this value becomes an argument to uv and a leading '-' would be read as a flag.",
        );
        return Err(string_of(m.as_slice()));
    }
    let mut i: usize = 0;
    while i < v.len()
        invariant
            i <= v.len(),
            forall|t: int| 0 <= t < i ==> is_version_char(#[trigger] v@[t]),
        decreases v.len() - i,
    {
        let c = v[i];
        if !(ascii_alnum(c) || c == '.' || c == '-' || c == '+') {
            assert(!is_version_char(v@[i as int]));
            let mut m = chars_of("'");
            let clean = sanitize_chars(v.as_slice());
            extend_chars(&mut m, clean.as_slice());
            extend_str(&mut m, "' contains characters a version does not");
            assert(v@[0] == v[0]);
            return Err(string_of(m.as_slice()));
        }
        i = i + 1;
    }
    Ok(())
}

// ── whole-configuration checks ─────────────────────────────────────────────

/// An isolation tier, weakest first.
#[derive(Debug, Clone, Copy, PartialEq, Eq, Structural)]
pub enum IsolationClaim {
    /// No confinement at all — never accepted by senv.
    Workspace,
    Process,
    Supervised,
    Container,
    Microvm,
}

impl IsolationClaim {
    pub open spec fn rank(self) -> int {
        match self {
            IsolationClaim::Workspace => 0,
            IsolationClaim::Process => 1,
            IsolationClaim::Supervised => 2,
            IsolationClaim::Container => 3,
            IsolationClaim::Microvm => 4,
        }
    }

    pub fn rank_of(self) -> (r: u8)
        ensures
            r as int == self.rank(),
    {
        match self {
            IsolationClaim::Workspace => 0,
            IsolationClaim::Process => 1,
            IsolationClaim::Supervised => 2,
            IsolationClaim::Container => 3,
            IsolationClaim::Microvm => 4,
        }
    }

    pub open spec fn name(self) -> Seq<char> {
        match self {
            IsolationClaim::Workspace => "workspace"@,
            IsolationClaim::Process => "process"@,
            IsolationClaim::Supervised => "supervised"@,
            IsolationClaim::Container => "container"@,
            IsolationClaim::Microvm => "microvm"@,
        }
    }

    pub fn as_str(self) -> (r: &'static str)
        ensures
            r@ == self.name(),
    {
        match self {
            IsolationClaim::Workspace => "workspace",
            IsolationClaim::Process => "process",
            IsolationClaim::Supervised => "supervised",
            IsolationClaim::Container => "container",
            IsolationClaim::Microvm => "microvm",
        }
    }

    /// Tiers that run the command from an OCI image.
    pub open spec fn is_image_backed(self) -> bool {
        self == IsolationClaim::Container || self == IsolationClaim::Microvm
    }

    pub fn image_backed(self) -> (b: bool)
        ensures
            b == self.is_image_backed(),
    {
        matches!(self, IsolationClaim::Container | IsolationClaim::Microvm)
    }
}

/// How the sandbox engine reads the resource strings of one section: each
/// present exactly when the string is set (`wall` not when it is `"none"`),
/// holding the value in bytes or seconds, or the engine's refusal.
#[derive(Debug, Clone)]
pub struct ResourceParse {
    pub mem: Option<core::result::Result<u64, String>>,
    pub wall: Option<core::result::Result<u64, String>>,
    pub fsize: Option<core::result::Result<u64, String>>,
    pub cpu: Option<core::result::Result<u64, String>>,
}

/// The sandbox engine's reading of every engine-defined string in a
/// configuration. The engine is the authority on these formats, so its
/// answers are an input here.
#[derive(Debug, Clone)]
pub struct EngineParse {
    /// Present exactly when `[env] isolation` is set and is not `auto`.
    pub isolation: Option<core::result::Result<IsolationClaim, String>>,
    pub run: ResourceParse,
    pub install: ResourceParse,
}

impl ResourceParse {
    /// Each reading is present exactly when its string is.
    pub open spec fn covers(&self, r: ResourceSection) -> bool {
        &&& (self.mem is Some <==> r.mem is Some)
        &&& (self.fsize is Some <==> r.fsize is Some)
        &&& (self.cpu is Some <==> r.cpu is Some)
        &&& (self.wall is Some <==> (r.wall is Some && !r.wall_is_unbounded_spec()))
    }
}

/// `[env] isolation` asks for a specific tier rather than `auto`.
pub open spec fn isolation_requested(cfg: Config) -> bool {
    cfg.env.isolation matches Some(i) && !eq_ignore_ascii_case_seq(trim_seq(i@), "auto"@)
}

impl EngineParse {
    pub open spec fn covers(&self, cfg: Config) -> bool {
        &&& (self.isolation is Some <==> isolation_requested(cfg))
        &&& self.run.covers(cfg.run.resources)
        &&& self.install.covers(cfg.install.resources)
    }
}

pub open spec fn workspace_refusal() -> Seq<char> {
    "[env] isolation = \"workspace\" applies no confinement at all. senv has no unconfined execution path — use \"process\" or stronger, or plain uv if you do not want a boundary."@
}

/// The source a secret is read from: `source`, or nothing.
pub open spec fn secret_source(s: SecretSection) -> Seq<char> {
    match s.source {
        Some(src) => src@,
        None => seq![],
    }
}

pub open spec fn command_secret_error(cfg: Config, i: int) -> Option<Seq<char>>
    decreases cfg.secrets@.len() - i,
{
    if i < 0 || i >= cfg.secrets@.len() {
        None
    } else if starts_with_seq(secret_source(cfg.secrets@[i].1), "command:"@)
        && !cfg.env.allow_command_secrets {
        Some(
            "[secrets."@ + cfg.secrets@[i].0@
                + "] uses a command: source, which runs on the host OUTSIDE the sandbox with your full environment. Set [env] allow-command-secrets = true to permit that, or use env:/file: instead (fail-closed)."@,
        )
    } else {
        command_secret_error(cfg, i + 1)
    }
}

/// A secret name becomes an environment variable.
pub open spec fn usable_secret_name(name: Seq<char>) -> bool {
    name.len() > 0 && forall|j: int| 0 <= j < name.len() ==> (is_ascii_alnum(#[trigger] name[j])
        || name[j] == '_')
}

pub open spec fn secret_name_error(cfg: Config, i: int) -> Option<Seq<char>>
    decreases cfg.secrets@.len() - i,
{
    if i < 0 || i >= cfg.secrets@.len() {
        None
    } else if !usable_secret_name(cfg.secrets@[i].0@) {
        Some(
            "[secrets."@ + cfg.secrets@[i].0@
                + "] is not a usable name — it becomes an environment variable, so use ASCII letters, digits and '_'"@,
        )
    } else {
        secret_name_error(cfg, i + 1)
    }
}

/// The first phase of a secret other than `run` and `shell`.
pub open spec fn bad_phase(phases: Seq<Seq<char>>, j: int) -> Option<Seq<char>>
    decreases phases.len() - j,
{
    if j < 0 || j >= phases.len() {
        None
    } else if phases[j] != "run"@ && phases[j] != "shell"@ {
        Some(phases[j])
    } else {
        bad_phase(phases, j + 1)
    }
}

pub open spec fn secret_phase_error(cfg: Config, i: int) -> Option<Seq<char>>
    decreases cfg.secrets@.len() - i,
{
    if i < 0 || i >= cfg.secrets@.len() {
        None
    } else {
        match bad_phase(strs(cfg.secrets@[i].1.phases@), 0) {
            Some(phase) => Some(
                "[secrets."@ + cfg.secrets@[i].0@ + "] phases = [\""@ + phase
                    + "\"] is not allowed. A secret may reach \"run\" and \"shell\" only — never the install phase, where a dependency's build backend would see it."@,
            ),
            None => secret_phase_error(cfg, i + 1),
        }
    }
}

/// The engine's refusal of one resource string, prefixed with where it is.
pub open spec fn parse_refusal(
    p: Option<core::result::Result<u64, String>>,
    label: Seq<char>,
    key: Seq<char>,
) -> Option<Seq<char>> {
    match p {
        Some(Err(e)) => Some("["@ + label + "] "@ + key + ": "@ + e@),
        _ => None,
    }
}

pub open spec fn first_of(a: Option<Seq<char>>, b: Option<Seq<char>>) -> Option<Seq<char>> {
    if a is Some {
        a
    } else {
        b
    }
}

pub open spec fn resource_error(p: ResourceParse, label: Seq<char>) -> Option<Seq<char>> {
    first_of(
        parse_refusal(p.mem, label, "mem"@),
        first_of(
            parse_refusal(p.fsize, label, "fsize"@),
            first_of(parse_refusal(p.cpu, label, "cpu"@), parse_refusal(p.wall, label, "wall"@)),
        ),
    )
}

pub open spec fn host_list_error(hosts: Seq<Seq<char>>, i: int) -> Option<Seq<char>>
    decreases hosts.len() - i,
{
    if i < 0 || i >= hosts.len() {
        None
    } else if host_pattern_error(hosts[i]) is Some {
        host_pattern_error(hosts[i])
    } else {
        host_list_error(hosts, i + 1)
    }
}

/// Why a configuration is invalid on its face, checked in this order: the
/// isolation tier, the Python request, `command:` secrets without their
/// gate, secret names, secret phases, run then install resource strings,
/// and every egress entry. `None` when it is valid.
pub open spec fn config_error(cfg: Config, engine: EngineParse) -> Option<Seq<char>> {
    let iso = match engine.isolation {
        Some(Err(e)) => Some("[env] isolation: "@ + e@),
        Some(Ok(IsolationClaim::Workspace)) => Some(workspace_refusal()),
        _ => None,
    };
    let py = match cfg.env.python {
        Some(v) => match python_request_error(v@) {
            Some(e) => Some("[env] python: "@ + e),
            None => None,
        },
        None => None,
    };
    first_of(
        iso,
        first_of(
            py,
            first_of(
                command_secret_error(cfg, 0),
                first_of(
                    secret_name_error(cfg, 0),
                    first_of(
                        secret_phase_error(cfg, 0),
                        first_of(
                            resource_error(engine.run, "run.resources"@),
                            first_of(
                                resource_error(engine.install, "install.resources"@),
                                host_list_error(
                                    cfg.run.net.hosts_spec() + strs(cfg.install.extra_indexes@),
                                    0,
                                ),
                            ),
                        ),
                    ),
                ),
            ),
        ),
    )
}

fn config_err(path: &str, msg: Vec<char>) -> (e: SenvError)
    ensures
        e matches SenvError::Config { path: p, message: m } && p@ == path@ && m@ == msg@,
{
    SenvError::config(String::from_str(path), string_of(msg.as_slice()))
}

fn prefixed(prefix: &str, rest: &str) -> (r: Vec<char>)
    ensures
        r@ == prefix@ + rest@,
{
    let mut m = chars_of(prefix);
    extend_str(&mut m, rest);
    m
}

fn check_resource(p: &ResourceParse, label: &str) -> (r: Option<Vec<char>>)
    ensures
        r matches Some(m) ==> resource_error(*p, label@) == Some(m@),
        r is None ==> resource_error(*p, label@) is None,
{
    if let Some(Err(e)) = &p.mem {
        return Some(refusal(label, "mem", e));
    }
    if let Some(Err(e)) = &p.fsize {
        return Some(refusal(label, "fsize", e));
    }
    if let Some(Err(e)) = &p.cpu {
        return Some(refusal(label, "cpu", e));
    }
    if let Some(Err(e)) = &p.wall {
        return Some(refusal(label, "wall", e));
    }
    None
}

fn refusal(label: &str, key: &str, e: &String) -> (r: Vec<char>)
    ensures
        r@ == "["@ + label@ + "] "@ + key@ + ": "@ + e@,
{
    let mut m = chars_of("[");
    extend_str(&mut m, label);
    extend_str(&mut m, "] ");
    extend_str(&mut m, key);
    extend_str(&mut m, ": ");
    extend_str(&mut m, e.as_str());
    m
}

impl Config {
    /// Reject configurations that are invalid on their face, before any
    /// policy is compiled — so the error names the file and the key.
    #[verifier::loop_isolation(false)]
    pub fn validate(&self, path: &str, engine: &EngineParse) -> (r: Result<()>)
        requires
            engine.covers(*self),
        ensures
            r is Ok <==> config_error(*self, *engine) is None,
            r matches Err(e) ==> e matches SenvError::Config { path: p, message: m } && p@
                == path@ && Some(m@) == config_error(*self, *engine),
    {
        match &engine.isolation {
            Some(Err(e)) => {
                return Err(config_err(path, prefixed("[env] isolation: ", e.as_str())));
            },
            Some(Ok(IsolationClaim::Workspace)) => {
                return Err(
                    config_err(
                        path,
                        chars_of(
                            "[env] isolation = \"workspace\" applies no confinement at all. senv has no unconfined execution path — use \"process\" or stronger, or plain uv if you do not want a boundary.",
                        ),
                    ),
                );
            },
            _ => {},
        }
        if let Some(python) = &self.env.python {
            if let Err(e) = validate_python_request(python.as_str()) {
                return Err(config_err(path, prefixed("[env] python: ", e.as_str())));
            }
        }
        let n = self.secrets.len();
        let mut i: usize = 0;
        while i < n
            invariant
                i <= n,
                n == self.secrets@.len(),
                command_secret_error(*self, 0) == command_secret_error(*self, i as int),
            decreases n - i,
        {
            let (name, sec) = &self.secrets[i];
            let cmd = match &sec.source {
                Some(src) => {
                    let sv = chars_of(src.as_str());
                    let prefix = chars_of("command:");
                    starts_with(sv.as_slice(), prefix.as_slice())
                },
                None => {
                    proof {
                        assert(!starts_with_seq(seq![], "command:"@)) by {
                            reveal_strlit("command:");
                        }
                    }
                    false
                },
            };
            if cmd && !self.env.allow_command_secrets {
                let mut m = prefixed("[secrets.", name.as_str());
                extend_str(
                    &mut m,
                    "] uses a command: source, which runs on the host OUTSIDE the sandbox with your full environment. Set [env] allow-command-secrets = true to permit that, or use env:/file: instead (fail-closed).",
                );
                return Err(config_err(path, m));
            }
            i = i + 1;
        }
        let mut i: usize = 0;
        while i < n
            invariant
                i <= n,
                n == self.secrets@.len(),
                secret_name_error(*self, 0) == secret_name_error(*self, i as int),
            decreases n - i,
        {
            let (name, _) = &self.secrets[i];
            let nv = chars_of(name.as_str());
            let mut ok = nv.len() > 0;
            let mut j: usize = 0;
            while ok && j < nv.len()
                invariant
                    j <= nv.len(),
                    nv@ == name@,
                    ok ==> nv.len() > 0 && forall|t: int| 0 <= t < j ==> (is_ascii_alnum(
                        #[trigger] nv@[t],
                    ) || nv@[t] == '_'),
                    !ok ==> !usable_secret_name(nv@),
                decreases nv.len() - j,
            {
                if !(ascii_alnum(nv[j]) || nv[j] == '_') {
                    assert(!(is_ascii_alnum(nv@[j as int]) || nv@[j as int] == '_'));
                    ok = false;
                }
                j = j + 1;
            }
            if !ok {
                let mut m = prefixed("[secrets.", name.as_str());
                extend_str(
                    &mut m,
                    "] is not a usable name — it becomes an environment variable, so use ASCII letters, digits and '_'",
                );
                return Err(config_err(path, m));
            }
            i = i + 1;
        }
        let mut i: usize = 0;
        while i < n
            invariant
                i <= n,
                n == self.secrets@.len(),
                secret_phase_error(*self, 0) == secret_phase_error(*self, i as int),
            decreases n - i,
        {
            let (name, sec) = &self.secrets[i];
            let mut j: usize = 0;
            let ghost phases = strs(sec.phases@);
            while j < sec.phases.len()
                invariant
                    j <= sec.phases.len(),
                    phases == strs(sec.phases@),
                    bad_phase(phases, 0) == bad_phase(phases, j as int),
                decreases sec.phases.len() - j,
            {
                let ph = &sec.phases[j];
                if !str_is(ph.as_str(), "run") && !str_is(ph.as_str(), "shell") {
                    let mut m = prefixed("[secrets.", name.as_str());
                    extend_str(&mut m, "] phases = [\"");
                    extend_str(&mut m, ph.as_str());
                    extend_str(
                        &mut m,
                        "\"] is not allowed. A secret may reach \"run\" and \"shell\" only — never the install phase, where a dependency's build backend would see it.",
                    );
                    return Err(config_err(path, m));
                }
                j = j + 1;
            }
            i = i + 1;
        }
        if let Some(m) = check_resource(&engine.run, "run.resources") {
            return Err(config_err(path, m));
        }
        if let Some(m) = check_resource(&engine.install, "install.resources") {
            return Err(config_err(path, m));
        }
        let run_hosts = self.run.net.hosts();
        let ghost all = self.run.net.hosts_spec() + strs(self.install.extra_indexes@);
        let mut i: usize = 0;
        while i < run_hosts.len()
            invariant
                i <= run_hosts.len(),
                all == self.run.net.hosts_spec() + strs(self.install.extra_indexes@),
                strs(run_hosts@) == self.run.net.hosts_spec(),
                host_list_error(all, 0) == host_list_error(all, i as int),
            decreases run_hosts.len() - i,
        {
            let h = &run_hosts[i];
            assert(h@ == all[i as int]);
            if let Err(e) = validate_host_pattern(h.as_str()) {
                return Err(config_err(path, chars_of(e.as_str())));
            }
            i = i + 1;
        }
        let extras = &self.install.extra_indexes;
        let mut j: usize = 0;
        while j < extras.len()
            invariant
                j <= extras.len(),
                all == self.run.net.hosts_spec() + strs(self.install.extra_indexes@),
                strs(run_hosts@) == self.run.net.hosts_spec(),
                run_hosts@.len() == self.run.net.hosts_spec().len(),
                extras@ == self.install.extra_indexes@,
                host_list_error(all, 0) == host_list_error(all, run_hosts@.len() + j),
            decreases extras.len() - j,
        {
            let h = &extras[j];
            assert(h@ == all[run_hosts@.len() + j]);
            if let Err(e) = validate_host_pattern(h.as_str()) {
                return Err(config_err(path, chars_of(e.as_str())));
            }
            j = j + 1;
        }
        Ok(())
    }
}

/// Whether a string equals a literal.
pub fn str_is(a: &str, b: &str) -> (r: bool)
    ensures
        r == (a@ == b@),
{
    crate::text::str_eq(a, b)
}

// ── the secret table ───────────────────────────────────────────────────────

/// The names of a list of secret grants, in order.
pub open spec fn secret_names(secrets: Seq<(String, SecretSection)>) -> Seq<Seq<char>> {
    Seq::new(secrets.len(), |i: int| secrets[i].0@)
}

impl Config {
    /// The secret grants are in ascending name order with no name twice, as
    /// the table they are read from keeps them.
    pub open spec fn secrets_well_formed(self) -> bool {
        crate::order::is_strictly_sorted(secret_names(self.secrets@))
    }
}

/// Adds a grant to a list of secret grants kept in ascending name order,
/// replacing a grant of the same name: what inserting into the table the
/// grants are read from does.
pub fn insert_secret(secrets: &mut Vec<(String, SecretSection)>, name: String, section: SecretSection)
    requires
        crate::order::is_strictly_sorted(secret_names(old(secrets)@)),
    ensures
        crate::order::is_strictly_sorted(secret_names(final(secrets)@)),
        final(secrets)@.contains((name, section)),
        forall|k: int|
            0 <= k < old(secrets)@.len() && old(secrets)@[k].0@ != name@ ==> final(secrets)@.contains(
                #[trigger] old(secrets)@[k],
            ),
        forall|k: int|
            0 <= k < final(secrets)@.len() ==> #[trigger] final(secrets)@[k] == (name, section)
                || old(secrets)@.contains(final(secrets)@[k]),
{
    let ghost before = secrets@;
    let ghost names = secret_names(before);
    let mut p: usize = 0;
    while p < secrets.len() && crate::order::lex_less(secrets[p].0.as_str(), name.as_str())
        invariant
            p <= secrets@.len(),
            secrets@ == before,
            names == secret_names(before),
            forall|k: int| 0 <= k < p ==> crate::order::lex_lt(#[trigger] names[k], name@),
        decreases secrets.len() - p,
    {
        assert(names[p as int] == secrets@[p as int].0@);
        p = p + 1;
    }
    let ghost entry = (name, section);
    let same = p < secrets.len() && crate::text::str_eq(secrets[p].0.as_str(), name.as_str());
    proof {
        if p < before.len() {
            assert(names[p as int] == before[p as int].0@);
            if !same {
                crate::order::lemma_lex_total_full(names[p as int], name@);
            }
        }
        assert forall|k: int| p <= k < names.len() implies (if same { k == p || crate::order::lex_lt(name@, #[trigger] names[k]) } else { crate::order::lex_lt(name@, names[k]) }) by {
            if k > p {
                assert(crate::order::lex_lt(names[p as int], names[k]));
                if !same {
                    crate::order::lemma_lex_transitive(name@, names[p as int], names[k], 0);
                }
            }
        }
    }
    if same {
        secrets.set(p, (name, section));
        proof {
            let after = secrets@;
            assert(after == before.update(p as int, entry));
            assert(secret_names(after) =~= names.update(p as int, entry.0@));
            assert(after[p as int] == entry);
        }
    } else {
        secrets.insert(p, (name, section));
        proof {
            let after = secrets@;
            assert(after == before.insert(p as int, entry));
            assert(secret_names(after) =~= names.insert(p as int, entry.0@));
            assert(after[p as int] == entry);
            assert forall|k: int| 0 <= k < before.len() implies after.contains(#[trigger] before[k]) by {
                if k < p {
                    assert(after[k] == before[k]);
                } else {
                    assert(after[k + 1] == before[k]);
                }
            }
        }
    }
    proof {
        let after = secrets@;
        let an = secret_names(after);
        assert forall|i: int, j: int| 0 <= i < j < an.len() implies crate::order::lex_lt(#[trigger] an[i], #[trigger] an[j]) by {
            if same {
                if i == p {
                    assert(an[i] == name@);
                    assert(an[j] == names[j]);
                } else if j == p {
                    assert(an[j] == name@);
                    assert(an[i] == names[i]);
                } else {
                    assert(an[i] == names[i] && an[j] == names[j]);
                }
            } else {
                if i == p {
                    assert(an[j] == names[j - 1]);
                } else if j == p {
                    assert(an[i] == names[i]);
                } else if i < p && j > p {
                    assert(an[i] == names[i] && an[j] == names[j - 1]);
                } else if j < p {
                    assert(an[i] == names[i] && an[j] == names[j]);
                } else {
                    assert(an[i] == names[i - 1] && an[j] == names[j - 1]);
                }
            }
        }
        assert(after[p as int] == entry);
        assert forall|k: int| 0 <= k < after.len() implies #[trigger] after[k] == entry || before.contains(after[k]) by {
            if same {
                if k != p {
                    assert(after[k] == before[k]);
                }
            } else if k < p {
                assert(after[k] == before[k]);
            } else if k > p {
                assert(after[k] == before[k - 1]);
            }
        }
        if same {
            assert forall|k: int| 0 <= k < before.len() && before[k].0@ != name@ implies after.contains(#[trigger] before[k]) by {
                assert(k != p);
                assert(after[k] == before[k]);
            }
        }
    }
}

// ── wildcards over a whole top-level domain ────────────────────────────────

proof fn lemma_no_colon(s: Seq<char>, j: int)
    requires
        0 <= j <= s.len(),
        forall|t: int| 0 <= t < s.len() ==> s[t] != ':',
    ensures
        crate::text::last_index_before(s, ':', j) is None,
    decreases j,
{
    if j > 0 {
        lemma_no_colon(s, j - 1);
    }
}

proof fn lemma_single_label_wildcard(prefix: Seq<char>, label: Seq<char>)
    requires
        prefix == "*."@ || prefix == "."@,
        forall|t: int| 0 <= t < label.len() ==> label[t] != '.' && label[t] != ':' && !crate::text::is_ws(#[trigger] label[t]),
    ensures
        host_pattern_error(prefix + label) is Some,
{
    reveal_strlit("*.");
    reveal_strlit(".");
    let x = prefix + label;
    assert(!crate::text::is_ws(x[0]));
    assert(!crate::text::is_ws(x[x.len() - 1])) by {
        if label.len() > 0 {
            assert(x[x.len() - 1] == label[label.len() - 1]);
        }
    }
    assert(crate::text::skip_ws(x, 0) == 0);
    assert(crate::text::trim_end_from(x, 0, x.len() as int) == x.len());
    assert(trim_seq(x) =~= x);
    assert forall|t: int| 0 <= t < x.len() implies x[t] != ':' by {
        if t >= prefix.len() {
            assert(x[t] == label[t - prefix.len()]);
        }
    }
    lemma_no_colon(x, x.len() as int);
    assert(host_part(x) == x);
    assert(!starts_with_seq(label, "*."@)) by {
        if label.len() >= 2 {
            assert(label[1] != '.');
            assert(label.subrange(0, 2)[1] == label[1]);
        }
    }
    assert(!starts_with_seq(label, "."@)) by {
        if label.len() >= 1 {
            assert(label.subrange(0, 1)[0] == label[0]);
        }
    }
    if prefix == "*."@ {
        assert(starts_with_seq(x, "*."@)) by {
            assert(x.subrange(0, 2) =~= "*."@);
        }
        assert(x.skip(2) =~= label);
        assert(strip_prefix_all(x, "*."@) == strip_prefix_all(label, "*."@));
    } else {
        assert(!starts_with_seq(x, "*."@)) by {
            assert(x.subrange(0, 1)[0] == '.');
        }
        assert(starts_with_seq(x, "."@)) by {
            assert(x.subrange(0, 1) =~= "."@);
        }
        assert(x.skip(1) =~= label);
        assert(strip_prefix_all(x, "."@) == strip_prefix_all(label, "."@));
    }
    assert(bare_host(x) == label);
    crate::text::lemma_find_from(label, "."@, 0);
    if crate::text::contains_seq(label, "."@) {
        let k = crate::text::find_from(label, "."@, 0)->0;
        assert(label.subrange(k, k + 1)[0] == label[k]);
    }
}

proof fn lemma_last_colon(s: Seq<char>, k: int, j: int)
    requires
        0 <= k < j <= s.len(),
        s[k] == ':',
        forall|t: int| k < t < s.len() ==> s[t] != ':',
    ensures
        crate::text::last_index_before(s, ':', j) == Some(k),
    decreases j,
{
    if j - 1 > k {
        lemma_last_colon(s, k, j - 1);
    }
}

proof fn lemma_single_label_wildcard_port(prefix: Seq<char>, label: Seq<char>, port: Seq<char>)
    requires
        prefix == "*."@ || prefix == "."@,
        forall|t: int| 0 <= t < label.len() ==> label[t] != '.' && label[t] != ':' && !crate::text::is_ws(#[trigger] label[t]),
        forall|t: int| 0 <= t < port.len() ==> port[t] != ':' && !crate::text::is_ws(#[trigger] port[t]),
    ensures
        host_pattern_error(prefix + label + ":"@ + port) is Some,
{
    reveal_strlit("*.");
    reveal_strlit(".");
    reveal_strlit(":");
    let h = prefix + label;
    let x = h + ":"@ + port;
    assert(!crate::text::is_ws(x[0])) by {
        assert(x[0] == h[0]);
    }
    assert(!crate::text::is_ws(x[x.len() - 1])) by {
        if port.len() > 0 {
            assert(x[x.len() - 1] == port[port.len() - 1]);
        } else {
            assert(x[x.len() - 1] == ':');
        }
    }
    assert(crate::text::skip_ws(x, 0) == 0);
    assert(crate::text::trim_end_from(x, 0, x.len() as int) == x.len());
    assert(trim_seq(x) =~= x);
    let k = h.len() as int;
    assert(x[k] == ':');
    assert forall|t: int| k < t < x.len() implies x[t] != ':' by {
        assert(x[t] == port[t - k - 1]);
    }
    lemma_last_colon(x, k, x.len() as int);
    assert(x.take(k) =~= h);
    assert(host_part(x) == h);
    if parses_as_u16(x.skip(k + 1)) {
        lemma_single_label_wildcard(prefix, label);
        assert forall|t: int| 0 <= t < h.len() implies h[t] != ':' by {
            if t >= prefix.len() {
                assert(h[t] == label[t - prefix.len()]);
            }
        }
        lemma_no_colon(h, h.len() as int);
        assert(host_part(h) == h);
        assert(bare_host(x) == bare_host(trim_seq(h))) by {
            assert(!crate::text::is_ws(h[0]));
            assert(!crate::text::is_ws(h[h.len() - 1])) by {
                if label.len() > 0 {
                    assert(h[h.len() - 1] == label[label.len() - 1]);
                }
            }
            assert(crate::text::skip_ws(h, 0) == 0);
            assert(crate::text::trim_end_from(h, 0, h.len() as int) == h.len());
            assert(trim_seq(h) =~= h);
        }
        assert(trim_seq(h) =~= h);
    }
}

/// With a port as well (`*.com:443`), a wildcard over a single label is
/// still refused.
pub proof fn lemma_tld_wildcard_with_port_refused(label: Seq<char>, port: Seq<char>)
    requires
        forall|t: int| 0 <= t < label.len() ==> label[t] != '.' && label[t] != ':' && !crate::text::is_ws(#[trigger] label[t]),
        forall|t: int| 0 <= t < port.len() ==> port[t] != ':' && !crate::text::is_ws(#[trigger] port[t]),
    ensures
        host_pattern_error("*."@ + label + ":"@ + port) is Some,
        host_pattern_error("."@ + label + ":"@ + port) is Some,
{
    lemma_single_label_wildcard_port("*."@, label, port);
    lemma_single_label_wildcard_port("."@, label, port);
}

/// A wildcard over a single label (`*.com`, `.internal`) would allowlist a
/// whole top-level domain, and is refused.
pub proof fn lemma_tld_wildcard_refused(label: Seq<char>)
    requires
        forall|t: int| 0 <= t < label.len() ==> label[t] != '.' && label[t] != ':' && !crate::text::is_ws(#[trigger] label[t]),
    ensures
        host_pattern_error("*."@ + label) is Some,
        host_pattern_error("."@ + label) is Some,
{
    lemma_single_label_wildcard("*."@, label);
    lemma_single_label_wildcard("."@, label);
}

// ── what validation refuses ────────────────────────────────────────────────

proof fn lemma_command_secret_found(cfg: Config, k: int, i: int)
    requires
        0 <= k <= i < cfg.secrets@.len(),
        starts_with_seq(secret_source(cfg.secrets@[i].1), "command:"@),
        !cfg.env.allow_command_secrets,
    ensures
        command_secret_error(cfg, k) is Some,
    decreases i - k,
{
    if k < i {
        lemma_command_secret_found(cfg, k + 1, i);
    }
}

proof fn lemma_secret_name_found(cfg: Config, k: int, i: int)
    requires
        0 <= k <= i < cfg.secrets@.len(),
        !usable_secret_name(cfg.secrets@[i].0@),
    ensures
        secret_name_error(cfg, k) is Some,
    decreases i - k,
{
    if k < i {
        lemma_secret_name_found(cfg, k + 1, i);
    }
}

proof fn lemma_bad_phase_found(phases: Seq<Seq<char>>, k: int, j: int)
    requires
        0 <= k <= j < phases.len(),
        phases[j] != "run"@,
        phases[j] != "shell"@,
    ensures
        bad_phase(phases, k) is Some,
    decreases j - k,
{
    if k < j && bad_phase(phases, k + 1) is None {
        lemma_bad_phase_found(phases, k + 1, j);
    }
}

proof fn lemma_secret_phase_found(cfg: Config, k: int, i: int)
    requires
        0 <= k <= i < cfg.secrets@.len(),
        bad_phase(strs(cfg.secrets@[i].1.phases@), 0) is Some,
    ensures
        secret_phase_error(cfg, k) is Some,
    decreases i - k,
{
    if k < i {
        lemma_secret_phase_found(cfg, k + 1, i);
    }
}

proof fn lemma_host_found(hosts: Seq<Seq<char>>, k: int, i: int)
    requires
        0 <= k <= i < hosts.len(),
        host_pattern_error(hosts[i]) is Some,
    ensures
        host_list_error(hosts, k) is Some,
    decreases i - k,
{
    if k < i {
        lemma_host_found(hosts, k + 1, i);
    }
}

/// Each misconfiguration that [`Config::validate`] lists is refused, wherever
/// it stands: an isolation tier of `workspace` or one the engine cannot
/// read, a `command:` secret without `allow-command-secrets`, a secret name
/// that is no environment variable, a secret reaching a phase other than
/// `run` and `shell`, a malformed Python request, a resource string the
/// engine refuses, and a malformed host or index.
pub proof fn lemma_misconfigurations_are_refused(cfg: Config, engine: EngineParse)
    ensures
        engine.isolation == Some(Ok::<IsolationClaim, String>(IsolationClaim::Workspace))
            ==> config_error(cfg, engine) is Some,
        engine.isolation matches Some(Err(_)) ==> config_error(cfg, engine) is Some,
        (cfg.env.python matches Some(v) && python_request_error(v@) is Some) ==> config_error(
            cfg,
            engine,
        ) is Some,
        (exists|i: int|
            0 <= i < cfg.secrets@.len() && !cfg.env.allow_command_secrets && starts_with_seq(
                #[trigger] secret_source(cfg.secrets@[i].1),
                "command:"@,
            )) ==> config_error(cfg, engine) is Some,
        (exists|i: int|
            0 <= i < cfg.secrets@.len() && !usable_secret_name(#[trigger] cfg.secrets@[i].0@))
            ==> config_error(cfg, engine) is Some,
        (exists|i: int, j: int|
            0 <= i < cfg.secrets@.len() && 0 <= j < cfg.secrets@[i].1.phases@.len()
                && #[trigger] cfg.secrets@[i].1.phases@[j]@ != "run"@
                && cfg.secrets@[i].1.phases@[j]@ != "shell"@) ==> config_error(cfg, engine) is Some,
        (resource_error(engine.run, "run.resources"@) is Some || resource_error(
            engine.install,
            "install.resources"@,
        ) is Some) ==> config_error(cfg, engine) is Some,
        (exists|k: int|
            0 <= k < cfg.run.net.hosts_spec().len() + cfg.install.extra_indexes@.len()
                && host_pattern_error(
                #[trigger] (cfg.run.net.hosts_spec() + strs(cfg.install.extra_indexes@))[k],
            ) is Some) ==> config_error(cfg, engine) is Some,
{
    if exists|i: int|
        0 <= i < cfg.secrets@.len() && !cfg.env.allow_command_secrets && starts_with_seq(
            #[trigger] secret_source(cfg.secrets@[i].1),
            "command:"@,
        ) {
        let i = choose|i: int|
            0 <= i < cfg.secrets@.len() && !cfg.env.allow_command_secrets && starts_with_seq(
                #[trigger] secret_source(cfg.secrets@[i].1),
                "command:"@,
            );
        lemma_command_secret_found(cfg, 0, i);
    }
    if exists|i: int| 0 <= i < cfg.secrets@.len() && !usable_secret_name(#[trigger] cfg.secrets@[i].0@) {
        let i = choose|i: int| 0 <= i < cfg.secrets@.len() && !usable_secret_name(#[trigger] cfg.secrets@[i].0@);
        lemma_secret_name_found(cfg, 0, i);
    }
    if exists|i: int, j: int|
        0 <= i < cfg.secrets@.len() && 0 <= j < cfg.secrets@[i].1.phases@.len()
            && #[trigger] cfg.secrets@[i].1.phases@[j]@ != "run"@
            && cfg.secrets@[i].1.phases@[j]@ != "shell"@ {
        let (i, j) = choose|i: int, j: int|
            0 <= i < cfg.secrets@.len() && 0 <= j < cfg.secrets@[i].1.phases@.len()
                && #[trigger] cfg.secrets@[i].1.phases@[j]@ != "run"@
                && cfg.secrets@[i].1.phases@[j]@ != "shell"@;
        let ps = strs(cfg.secrets@[i].1.phases@);
        assert(ps[j] == cfg.secrets@[i].1.phases@[j]@);
        lemma_bad_phase_found(ps, 0, j);
        lemma_secret_phase_found(cfg, 0, i);
    }
    let hosts = cfg.run.net.hosts_spec() + strs(cfg.install.extra_indexes@);
    if exists|k: int|
        0 <= k < cfg.run.net.hosts_spec().len() + cfg.install.extra_indexes@.len()
            && host_pattern_error(#[trigger] hosts[k]) is Some {
        let k = choose|k: int|
            0 <= k < cfg.run.net.hosts_spec().len() + cfg.install.extra_indexes@.len()
                && host_pattern_error(#[trigger] hosts[k]) is Some;
        lemma_host_found(hosts, 0, k);
    }
}

} // verus!
