//! Making the boundary legible: what `status`, `report`, `allow` and `gc`
//! conclude from what they read.

use vstd::prelude::*;
use crate::policy::{NetMode, PhaseProfile};
use crate::project::Provenance;
use crate::receipt::{Denial, DenialKind, DenialView, VerdictView, denial_views};
use crate::text::{chars_of, extend_chars, extend_str, string_of, strs, str_eq, contains_string};
use crate::util::{decimal, decimal_chars, join_seq, sanitize, sanitize_seq};
use crate::exec::wrap_spec;
use crate::lines::{
    Line, blank, emit, labelled_lines, lines_view, out, pad_right, prefixed_lines, push_labelled,
    push_padded_right, push_prefixed, push_wrapped, say, signed_decimal, signed_decimal_chars,
    wrapped_lines,
};

verus! {

// ── durations and limits ───────────────────────────────────────────────────

/// A wall clock as the user wrote it: whole hours, whole minutes, or
/// seconds; anything of 300 days or more is senv's stand-in for "none".
pub open spec fn format_duration_spec(secs: nat) -> Seq<char> {
    if secs >= 86_400 * 300 {
        "unbounded (wall = \"none\")"@
    } else if secs % 3600 == 0 {
        decimal(secs / 3600) + "h"@
    } else if secs % 60 == 0 {
        decimal(secs / 60) + "m"@
    } else {
        decimal(secs) + "s"@
    }
}

pub fn format_duration(secs: u64) -> (r: String)
    ensures
        r@ == format_duration_spec(secs as nat),
{
    if secs >= 86_400 * 300 {
        return String::from_str("unbounded (wall = \"none\")");
    }
    let mut out = if secs % 3600 == 0 {
        let mut d = decimal_chars(secs / 3600);
        d.push('h');
        d
    } else if secs % 60 == 0 {
        let mut d = decimal_chars(secs / 60);
        d.push('m');
        d
    } else {
        let mut d = decimal_chars(secs);
        d.push('s');
        d
    };
    proof {
        reveal_strlit("h");
        reveal_strlit("m");
        reveal_strlit("s");
    }
    string_of(out.as_slice())
}

/// A configured limit this host does not apply is still shown — it is what
/// the policy asks for — but never as though it were a ceiling here.
pub fn annotate(value: String, enforced: bool) -> (r: String)
    ensures
        enforced ==> r == value,
        !enforced ==> r@ == value@ + " (NOT enforced on this host)"@,
{
    if enforced {
        value
    } else {
        let mut v = chars_of(value.as_str());
        extend_str(&mut v, " (NOT enforced on this host)");
        string_of(v.as_slice())
    }
}

pub fn yes_no(v: bool) -> (r: &'static str)
    ensures
        r@ == (if v { "yes"@ } else { "no "@ }),
{
    if v {
        "yes"
    } else {
        "no "
    }
}

// ── report ─────────────────────────────────────────────────────────────────

/// `list` with `value` appended unless it is already there.
pub open spec fn push_once_spec(list: Seq<Seq<char>>, value: Seq<char>) -> Seq<Seq<char>> {
    if list.contains(value) {
        list
    } else {
        list.push(value)
    }
}

pub fn push_once(list: &mut Vec<String>, value: &str)
    ensures
        strs(final(list)@) == push_once_spec(strs(old(list)@), value@),
{
    let ghost before = list@;
    if !contains_string(list.as_slice(), value) {
        list.push(String::from_str(value));
        assert(strs(list@) =~= strs(before).push(value@));
    }
}

/// The refusals recorded across receipts, sorted by what can be done about
/// them.
#[derive(Debug, Clone)]
pub struct Blocked {
    /// Hosts that could be allowlisted, each once, in the order first seen.
    pub hosts: Vec<String>,
    /// Paths that could be granted, each once.
    pub paths: Vec<String>,
    /// Targets senv refuses to suggest.
    pub by_design: Vec<String>,
    /// Refusals whose host the error never named.
    pub unnamed: usize,
}

/// The blocked lists after the first `k` denials.
pub open spec fn blocked_upto(ds: Seq<DenialView>, k: int) -> (Seq<Seq<char>>, Seq<Seq<char>>, Seq<Seq<char>>, nat)
    decreases k,
{
    if k <= 0 || k > ds.len() {
        (seq![], seq![], seq![], 0)
    } else {
        let (h, p, b, u) = blocked_upto(ds, k - 1);
        let d = ds[k - 1];
        match d.verdict {
            VerdictView::Suggestable => if d.kind == DenialKind::Network {
                (push_once_spec(h, d.target), p, b, u)
            } else {
                (h, push_once_spec(p, d.target), b, u)
            },
            VerdictView::Unnamed => (h, p, b, u + 1),
            VerdictView::ByDesign(_) => (h, p, push_once_spec(b, d.target), u),
        }
    }
}

/// The targets of the denials in `ds` that could be allowed and are of
/// `kind`, in order, repeats included.
pub open spec fn suggestable_targets(ds: Seq<DenialView>, kind: DenialKind) -> Seq<Seq<char>>
    decreases ds.len(),
{
    if ds.len() == 0 {
        seq![]
    } else {
        let rest = suggestable_targets(ds.drop_last(), kind);
        let d = ds.last();
        if d.verdict is Suggestable && d.kind == kind {
            rest.push(d.target)
        } else {
            rest
        }
    }
}

proof fn lemma_blocked_upto_first_seen(ds: Seq<DenialView>, k: int)
    requires
        0 <= k <= ds.len(),
    ensures
        blocked_upto(ds, k).0 == crate::policy::first_occurrences(
            suggestable_targets(ds.take(k), DenialKind::Network),
        ),
        blocked_upto(ds, k).1 == crate::policy::first_occurrences(
            suggestable_targets(ds.take(k), DenialKind::Filesystem),
        ),
    decreases k,
{
    if k == 0 {
        assert(ds.take(0) =~= Seq::<DenialView>::empty());
    } else {
        lemma_blocked_upto_first_seen(ds, k - 1);
        assert(ds.take(k).drop_last() =~= ds.take(k - 1));
        assert(ds.take(k).last() == ds[k - 1]);
        let d = ds[k - 1];
        let hn = suggestable_targets(ds.take(k - 1), DenialKind::Network);
        let pf = suggestable_targets(ds.take(k - 1), DenialKind::Filesystem);
        assert(hn.push(d.target).drop_last() =~= hn);
        assert(pf.push(d.target).drop_last() =~= pf);
        if d.verdict is Suggestable {
            if d.kind == DenialKind::Network {
                assert(suggestable_targets(ds.take(k), DenialKind::Network) == hn.push(d.target));
                assert(suggestable_targets(ds.take(k), DenialKind::Filesystem) == pf);
            } else {
                assert(suggestable_targets(ds.take(k), DenialKind::Network) == hn);
                assert(suggestable_targets(ds.take(k), DenialKind::Filesystem) == pf.push(d.target));
            }
        } else {
            assert(suggestable_targets(ds.take(k), DenialKind::Network) == hn);
            assert(suggestable_targets(ds.take(k), DenialKind::Filesystem) == pf);
        }
    }
}

/// The hosts and the paths `senv report` lists as blocked are the targets
/// of the denials that could be allowed, each once, in the order first
/// seen.
pub proof fn lemma_blocked_first_seen(ds: Seq<DenialView>)
    ensures
        blocked_upto(ds, ds.len() as int).0 == crate::policy::first_occurrences(
            suggestable_targets(ds, DenialKind::Network),
        ),
        blocked_upto(ds, ds.len() as int).1 == crate::policy::first_occurrences(
            suggestable_targets(ds, DenialKind::Filesystem),
        ),
        forall|i: int, j: int|
            0 <= i < j < blocked_upto(ds, ds.len() as int).0.len() ==> blocked_upto(
                ds,
                ds.len() as int,
            ).0[i] != blocked_upto(ds, ds.len() as int).0[j],
        forall|i: int, j: int|
            0 <= i < j < blocked_upto(ds, ds.len() as int).1.len() ==> blocked_upto(
                ds,
                ds.len() as int,
            ).1[i] != blocked_upto(ds, ds.len() as int).1[j],
{
    lemma_blocked_upto_first_seen(ds, ds.len() as int);
    assert(ds.take(ds.len() as int) =~= ds);
    crate::policy::lemma_first_occurrences_unique(suggestable_targets(ds, DenialKind::Network));
    crate::policy::lemma_first_occurrences_unique(suggestable_targets(ds, DenialKind::Filesystem));
}

/// The denials of every record, oldest first.
pub open spec fn concat_views(chunks: Seq<Vec<Denial>>) -> Seq<DenialView>
    decreases chunks.len(),
{
    if chunks.len() == 0 {
        seq![]
    } else {
        concat_views(chunks.drop_last()) + denial_views(chunks.last()@)
    }
}

/// All the denials of a run of receipts, in order.
pub fn all_denials(records: &Vec<Vec<Denial>>) -> (r: Vec<Denial>)
    ensures
        denial_views(r@) == concat_views(records@),
{
    let mut out: Vec<Denial> = Vec::new();
    let mut i: usize = 0;
    while i < records.len()
        invariant
            i <= records@.len(),
            denial_views(out@) == concat_views(records@.take(i as int)),
        decreases records.len() - i,
    {
        let ds = &records[i];
        let ghost start = denial_views(out@);
        let mut j: usize = 0;
        while j < ds.len()
            invariant
                j <= ds@.len(),
                denial_views(out@) == start + denial_views(ds@).take(j as int),
            decreases ds.len() - j,
        {
            let ghost before = out@;
            out.push(ds[j].copy());
            assert(denial_views(out@) =~= denial_views(before).push(ds@[j as int]@));
            assert(denial_views(ds@).take(j + 1) =~= denial_views(ds@).take(j as int).push(ds@[j as int]@));
            j = j + 1;
        }
        assert(denial_views(ds@).take(ds@.len() as int) =~= denial_views(ds@));
        assert(records@.take(i + 1).drop_last() =~= records@.take(i as int));
        i = i + 1;
    }
    assert(records@.take(records@.len() as int) =~= records@);
    out
}

/// Sort denials (oldest first) into what `report` shows.
pub fn tally_blocked(denials: &Vec<Denial>) -> (r: Blocked)
    ensures
        ({
            let ds = denial_views(denials@);
            let (h, p, b, u) = blocked_upto(ds, ds.len() as int);
            &&& strs(r.hosts@) == h
            &&& strs(r.paths@) == p
            &&& strs(r.by_design@) == b
            &&& r.unnamed == u
        }),
{
    let ghost ds = denial_views(denials@);
    let mut out = Blocked { hosts: Vec::new(), paths: Vec::new(), by_design: Vec::new(), unnamed: 0 };
    let mut j: usize = 0;
    while j < denials.len()
        invariant
            j <= denials@.len(),
            ds == denial_views(denials@),
            ({
                let (h, p, b, u) = blocked_upto(ds, j as int);
                &&& strs(out.hosts@) == h
                &&& strs(out.paths@) == p
                &&& strs(out.by_design@) == b
                &&& out.unnamed == u
            }),
            out.unnamed <= j,
        decreases denials.len() - j,
    {
        let d = &denials[j];
        assert(ds[j as int] == d@);
        match &d.verdict {
            crate::receipt::Verdict::Suggestable => {
                if d.kind == DenialKind::Network {
                    push_once(&mut out.hosts, d.target.as_str());
                } else {
                    push_once(&mut out.paths, d.target.as_str());
                }
            },
            crate::receipt::Verdict::Unnamed => {
                out.unnamed = out.unnamed + 1;
            },
            crate::receipt::Verdict::ByDesign(_) => {
                push_once(&mut out.by_design, d.target.as_str());
            },
        }
        j = j + 1;
    }
    out
}

/// One argument as `report` shows it: an absolute path collapsed to its
/// last segment, and any run of whitespace collapsed to one space.
pub open spec fn arg_text(a: Seq<char>) -> Seq<char> {
    let base = if a.len() > 0 && a[0] == '/' {
        match crate::text::last_index_of(a, '/') {
            Some(k) => a.subrange(k + 1, a.len() as int),
            None => a,
        }
    } else {
        a
    };
    join_seq(crate::text::words(base), " "@)
}

/// The longest command `report` shows before cutting it.
pub const COMMAND_WIDTH: usize = 60;

/// One line per command, however it was written: sanitized, and cut to 60
/// characters with an ellipsis.
pub open spec fn shorten_command_spec(argv: Seq<Seq<char>>) -> Seq<char> {
    let joined = sanitize_seq(join_seq(argv.map_values(|a: Seq<char>| arg_text(a)), " "@));
    if joined.len() <= COMMAND_WIDTH {
        joined
    } else {
        joined.take(COMMAND_WIDTH - 1) + seq!['…']
    }
}

fn arg_text_of(a: &str) -> (r: String)
    ensures
        r@ == arg_text(a@),
{
    let av = chars_of(a);
    let base = if av.len() > 0 && av[0] == '/' {
        match crate::text::rfind_char(av.as_slice(), '/') {
            Some(k) => crate::text::slice_of(av.as_slice(), k + 1, av.len()),
            None => av,
        }
    } else {
        av
    };
    let ws = crate::text::split_words(base.as_slice());
    let mut parts: Vec<String> = Vec::new();
    let mut i: usize = 0;
    while i < ws.len()
        invariant
            i <= ws@.len(),
            parts@.len() == i,
            forall|t: int| 0 <= t < i ==> #[trigger] parts@[t]@ == ws@[t]@,
        decreases ws.len() - i,
    {
        parts.push(string_of(ws[i].as_slice()));
        i = i + 1;
    }
    assert(strs(parts@) =~= crate::text::words(base@));
    let j = crate::config::join_strings(parts.as_slice(), " ");
    string_of(j.as_slice())
}

/// One line per command in the report.
pub fn shorten_command(argv: &[String]) -> (r: String)
    ensures
        r@ == shorten_command_spec(strs(argv@)),
{
    let mut parts: Vec<String> = Vec::new();
    let mut i: usize = 0;
    while i < argv.len()
        invariant
            i <= argv@.len(),
            parts@.len() == i,
            forall|t: int| 0 <= t < i ==> #[trigger] parts@[t]@ == arg_text(argv@[t]@),
        decreases argv.len() - i,
    {
        parts.push(arg_text_of(argv[i].as_str()));
        i = i + 1;
    }
    assert(strs(parts@) =~= strs(argv@).map_values(|a: Seq<char>| arg_text(a)));
    let joined = crate::config::join_strings(parts.as_slice(), " ");
    let clean = crate::util::sanitize_chars(joined.as_slice());
    if clean.len() <= COMMAND_WIDTH {
        return string_of(clean.as_slice());
    }
    let mut cut = crate::text::slice_of(clean.as_slice(), 0, COMMAND_WIDTH - 1);
    cut.push('…');
    string_of(cut.as_slice())
}

/// A value quoted as a TOML basic string: `"` and `\` escaped.
pub open spec fn toml_escape(s: Seq<char>) -> Seq<char>
    decreases s.len(),
{
    if s.len() == 0 {
        seq![]
    } else {
        toml_escape(s.drop_last()) + if s.last() == '"' {
            seq!['\\', '"']
        } else if s.last() == '\\' {
            seq!['\\', '\\']
        } else {
            seq![s.last()]
        }
    }
}

pub open spec fn toml_string_spec(s: Seq<char>) -> Seq<char> {
    seq!['"'] + toml_escape(s) + seq!['"']
}

/// Quote a value as a TOML basic string. The values come from a program's
/// output and the result is text a user pastes into their policy, so
/// nothing may break out of the string.
pub fn toml_string(value: &str) -> (r: String)
    ensures
        r@ == toml_string_spec(value@),
{
    let v = chars_of(value);
    let mut out: Vec<char> = Vec::new();
    out.push('"');
    let mut i: usize = 0;
    while i < v.len()
        invariant
            i <= v@.len(),
            v@ == value@,
            out@ == seq!['"'] + toml_escape(v@.take(i as int)),
        decreases v.len() - i,
    {
        let c = v[i];
        if c == '"' {
            out.push('\\');
            out.push('"');
        } else if c == '\\' {
            out.push('\\');
            out.push('\\');
        } else {
            out.push(c);
        }
        assert(v@.take(i + 1).drop_last() =~= v@.take(i as int));
        assert(out@ =~= seq!['"'] + toml_escape(v@.take(i + 1)));
        i = i + 1;
    }
    out.push('"');
    assert(v@.take(v@.len() as int) =~= v@);
    string_of(out.as_slice())
}

/// `  "<item>",` lines, one per item.
pub open spec fn stanza_items(items: Seq<Seq<char>>) -> Seq<char>
    decreases items.len(),
{
    if items.len() == 0 {
        seq![]
    } else {
        stanza_items(items.drop_last()) + "  "@ + toml_string_spec(items.last()) + ",\n"@
    }
}

/// Recorded denials as a `senv.toml` stanza: printed, never written —
/// widening the boundary is a decision someone makes and commits.
pub open spec fn suggest_stanza_spec(hosts: Seq<Seq<char>>, paths: Seq<Seq<char>>) -> Seq<char> {
    if hosts.len() == 0 && paths.len() == 0 {
        "# nothing was blocked that senv would suggest allowing\n"@
    } else {
        "# Reviewed suggestions from recorded denials. Nothing is applied until you\n# paste it into senv.toml yourself.\n"@
            + (if hosts.len() > 0 {
            "\n[run]\nnet = [\n"@ + stanza_items(hosts) + "]\n"@
        } else {
            seq![]
        }) + (if paths.len() > 0 {
            "\n[run.fs]\nread = [\n"@ + stanza_items(paths) + "]\n"@
        } else {
            seq![]
        })
    }
}

fn push_items(out: &mut Vec<char>, items: &[String])
    ensures
        final(out)@ == old(out)@ + stanza_items(strs(items@)),
{
    let ghost start = out@;
    let mut i: usize = 0;
    while i < items.len()
        invariant
            i <= items@.len(),
            out@ == start + stanza_items(strs(items@).take(i as int)),
        decreases items.len() - i,
    {
        extend_str(out, "  ");
        let q = toml_string(items[i].as_str());
        extend_str(out, q.as_str());
        extend_str(out, ",\n");
        assert(strs(items@).take(i + 1).drop_last() =~= strs(items@).take(i as int));
        i = i + 1;
    }
    assert(strs(items@).take(items@.len() as int) =~= strs(items@));
}

/// Turn recorded denials into a `senv.toml` stanza.
pub fn suggest_stanza(hosts: &[String], paths: &[String]) -> (r: String)
    ensures
        r@ == suggest_stanza_spec(strs(hosts@), strs(paths@)),
{
    if hosts.len() == 0 && paths.len() == 0 {
        return String::from_str("# nothing was blocked that senv would suggest allowing\n");
    }
    let mut out = chars_of(
        "# Reviewed suggestions from recorded denials. Nothing is applied until you\n# paste it into senv.toml yourself.\n",
    );
    if hosts.len() > 0 {
        extend_str(&mut out, "\n[run]\nnet = [\n");
        push_items(&mut out, hosts);
        extend_str(&mut out, "]\n");
    }
    if paths.len() > 0 {
        extend_str(&mut out, "\n[run.fs]\nread = [\n");
        push_items(&mut out, paths);
        extend_str(&mut out, "]\n");
    }
    string_of(out.as_slice())
}

// ── status ─────────────────────────────────────────────────────────────────

pub open spec fn egress_caveat_spec(macos: bool) -> Seq<char> {
    if macos {
        " (reached through senv's allowlist proxy — a client that ignores HTTPS_PROXY gets no network at all)"@
    } else {
        seq![]
    }
}

/// The network line for a phase. The allowlist is read before the mode: an
/// allowlist is expressed as `Deny` plus a host list.
pub open spec fn describe_net_spec(p: PhaseProfile, macos: bool) -> Seq<char> {
    if p.net_egress@.len() > 0 {
        join_seq(strs(p.net_egress@).map_values(|h: Seq<char>| sanitize_seq(h)), ", "@)
            + egress_caveat_spec(macos)
    } else if p.net_mode == NetMode::Host {
        "UNRESTRICTED"@
    } else {
        "denied"@
    }
}

/// Each string sanitized for display.
pub fn sanitized_all(items: &[String]) -> (r: Vec<String>)
    ensures
        strs(r@) == strs(items@).map_values(|h: Seq<char>| sanitize_seq(h)),
{
    let mut out: Vec<String> = Vec::new();
    let mut i: usize = 0;
    while i < items.len()
        invariant
            i <= items@.len(),
            strs(out@) == strs(items@).map_values(|h: Seq<char>| sanitize_seq(h)).take(i as int),
        decreases items.len() - i,
    {
        let ghost before = out@;
        out.push(sanitize(items[i].as_str()));
        assert(strs(out@) =~= strs(before).push(sanitize_seq(items@[i as int]@)));
        assert(strs(items@).map_values(|h: Seq<char>| sanitize_seq(h)).take(i + 1) =~= strs(items@).map_values(|h: Seq<char>| sanitize_seq(h)).take(i as int).push(sanitize_seq(items@[i as int]@)));
        i = i + 1;
    }
    assert(strs(items@).map_values(|h: Seq<char>| sanitize_seq(h)).take(items@.len() as int) =~= strs(items@).map_values(|h: Seq<char>| sanitize_seq(h)));
    out
}

pub fn describe_net(p: &PhaseProfile, macos: bool) -> (r: String)
    ensures
        r@ == describe_net_spec(*p, macos),
{
    if crate::policy::has_allowlist(p) {
        let hosts = sanitized_all(p.net_egress.as_slice());
        let mut out = crate::config::join_strings(hosts.as_slice(), ", ");
        if macos {
            extend_str(
                &mut out,
                " (reached through senv's allowlist proxy — a client that ignores HTTPS_PROXY gets no network at all)",
            );
        } else {
            assert(out@ =~= out@ + egress_caveat_spec(macos));
        }
        string_of(out.as_slice())
    } else if crate::policy::is_unrestricted(p) {
        String::from_str("UNRESTRICTED")
    } else {
        String::from_str("denied")
    }
}

/// Grants the engine issues itself that `status` does not list as writable.
pub open spec fn implicit_write(w: Seq<char>) -> bool {
    w == "$WORK"@ || w == "/dev/null"@ || w == "/dev/zero"@
}

/// The writable grants worth listing, sanitized: they come from
/// `senv.toml`, which the run phase can write.
pub open spec fn listed_writes(ws: Seq<Seq<char>>) -> Seq<Seq<char>>
    decreases ws.len(),
{
    if ws.len() == 0 {
        seq![]
    } else {
        let rest = listed_writes(ws.drop_last());
        if implicit_write(ws.last()) {
            rest
        } else {
            rest.push(sanitize_seq(ws.last()))
        }
    }
}

/// Writable paths, with the working directory spelled out from the
/// enforcement mode: the engine grants it implicitly and it never appears
/// among the write grants.
pub open spec fn writable_summary_spec(root: Seq<char>, fs_write: Seq<Seq<char>>, work_readonly: bool) -> Seq<Seq<char>> {
    (if work_readonly {
        seq![]
    } else {
        seq![root + " (the project)"@]
    }) + listed_writes(fs_write)
}

pub fn writable_summary(root: &str, fs_write: &[String], work_readonly: bool) -> (r: Vec<String>)
    ensures
        strs(r@) == writable_summary_spec(root@, strs(fs_write@), work_readonly),
{
    let mut out: Vec<String> = Vec::new();
    if !work_readonly {
        let mut t = chars_of(root);
        extend_str(&mut t, " (the project)");
        out.push(string_of(t.as_slice()));
    }
    let ghost head = strs(out@);
    assert(head =~= (if work_readonly { seq![] } else { seq![root@ + " (the project)"@] }));
    let mut i: usize = 0;
    while i < fs_write.len()
        invariant
            i <= fs_write@.len(),
            strs(out@) == head + listed_writes(strs(fs_write@).take(i as int)),
        decreases fs_write.len() - i,
    {
        let w = fs_write[i].as_str();
        let skip = str_eq(w, "$WORK") || str_eq(w, "/dev/null") || str_eq(w, "/dev/zero");
        let ghost before = out@;
        assert(strs(fs_write@).take(i + 1).drop_last() =~= strs(fs_write@).take(i as int));
        if !skip {
            out.push(sanitize(w));
            assert(strs(out@) =~= strs(before).push(sanitize_seq(w@)));
        }
        i = i + 1;
    }
    assert(strs(fs_write@).take(fs_write@.len() as int) =~= strs(fs_write@));
    out
}

/// The engine's own read grants, which `status` does not repeat.
pub open spec fn baseline_reads() -> Seq<Seq<char>> {
    seq![
        "/usr"@, "/lib"@, "/lib64"@, "/bin"@, "/sbin"@, "/etc"@, "/nix"@, "/opt"@, "/tmp"@,
        "/dev/null"@, "/dev/zero"@, "/dev/urandom"@, "/proc"@,
    ]
}

/// One readable grant as `status` shows it: compared before sanitizing,
/// rendered after.
pub open spec fn read_line(r: Seq<char>, venv: Seq<char>, root: Seq<char>) -> Seq<char> {
    if r == venv {
        sanitize_seq(r) + " (the environment, read-only)"@
    } else if r == root {
        sanitize_seq(r) + " (the project, read-only)"@
    } else {
        sanitize_seq(r)
    }
}

pub open spec fn readable_summary_spec(venv: Seq<char>, root: Seq<char>, fs_read: Seq<Seq<char>>) -> Seq<Seq<char>>
    decreases fs_read.len(),
{
    if fs_read.len() == 0 {
        seq![]
    } else {
        let rest = readable_summary_spec(venv, root, fs_read.drop_last());
        if baseline_reads().contains(fs_read.last()) {
            rest
        } else {
            rest.push(read_line(fs_read.last(), venv, root))
        }
    }
}

pub fn readable_summary(venv: &str, root: &str, fs_read: &[String]) -> (r: Vec<String>)
    ensures
        strs(r@) == readable_summary_spec(venv@, root@, strs(fs_read@)),
{
    let baseline: [&str; 13] = [
        "/usr", "/lib", "/lib64", "/bin", "/sbin", "/etc", "/nix", "/opt", "/tmp", "/dev/null",
        "/dev/zero", "/dev/urandom", "/proc",
    ];
    assert(baseline@.map_values(|o: &str| o@) =~= baseline_reads());
    let mut out: Vec<String> = Vec::new();
    let mut i: usize = 0;
    while i < fs_read.len()
        invariant
            i <= fs_read@.len(),
            baseline@.map_values(|o: &str| o@) == baseline_reads(),
            strs(out@) == readable_summary_spec(venv@, root@, strs(fs_read@).take(i as int)),
        decreases fs_read.len() - i,
    {
        let r = fs_read[i].as_str();
        let rv = chars_of(r);
        let ghost before = out@;
        assert(strs(fs_read@).take(i + 1).drop_last() =~= strs(fs_read@).take(i as int));
        if !crate::receipt::one_of(rv.as_slice(), &baseline) {
            let shown = sanitize(r);
            let mut line = chars_of(shown.as_str());
            if str_eq(r, venv) {
                extend_str(&mut line, " (the environment, read-only)");
            } else if str_eq(r, root) {
                extend_str(&mut line, " (the project, read-only)");
            }
            out.push(string_of(line.as_slice()));
            assert(strs(out@) =~= strs(before).push(read_line(r@, venv@, root@)));
        }
        i = i + 1;
    }
    assert(strs(fs_read@).take(fs_read@.len() as int) =~= strs(fs_read@));
    out
}

/// The lockfile line of `status`.
pub open spec fn lock_status_spec(current: Option<bool>, lock_exists: bool) -> Seq<char> {
    match current {
        Some(true) => "current"@,
        Some(false) => "STALE — run `senv sync`"@,
        None => if lock_exists {
            "not yet synced"@
        } else {
            "absent"@
        },
    }
}

pub fn lock_status(current: Option<bool>, lock_exists: bool) -> (r: &'static str)
    ensures
        r@ == lock_status_spec(current, lock_exists),
{
    match current {
        Some(true) => "current",
        Some(false) => "STALE — run `senv sync`",
        None => if lock_exists {
            "not yet synced"
        } else {
            "absent"
        },
    }
}

// ── allow ──────────────────────────────────────────────────────────────────

/// The allowlist after `requested` is merged into `existing`, with what was
/// added and what was already there.
pub open spec fn merge_hosts(existing: Seq<Seq<char>>, requested: Seq<Seq<char>>) -> (Seq<Seq<char>>, Seq<Seq<char>>, Seq<Seq<char>>)
    decreases requested.len(),
{
    if requested.len() == 0 {
        (existing, seq![], seq![])
    } else {
        let (net, added, already) = merge_hosts(existing, requested.drop_last());
        let h = requested.last();
        if net.contains(h) {
            (net, added, already.push(h))
        } else {
            (net.push(h), added.push(h), already)
        }
    }
}

/// What `senv allow` makes of the current allowlist.
#[derive(Debug, Clone)]
pub struct AllowMerge {
    /// The allowlist to write back.
    pub net: Vec<String>,
    pub added: Vec<String>,
    pub already_present: Vec<String>,
}

/// Merge the requested hosts into the allowlist, each once, in order.
pub fn merge_allowlist(existing: &[String], requested: &[String]) -> (r: AllowMerge)
    ensures
        (strs(r.net@), strs(r.added@), strs(r.already_present@)) == merge_hosts(
            strs(existing@),
            strs(requested@),
        ),
{
    let mut net = crate::text::clone_strings(existing);
    let mut added: Vec<String> = Vec::new();
    let mut already: Vec<String> = Vec::new();
    assert(merge_hosts(strs(existing@), strs(requested@).take(0)) == (strs(existing@), Seq::<Seq<char>>::empty(), Seq::<Seq<char>>::empty()));
    assert(strs(added@) =~= seq![]);
    assert(strs(already@) =~= seq![]);
    let mut i: usize = 0;
    while i < requested.len()
        invariant
            i <= requested@.len(),
            (strs(net@), strs(added@), strs(already@)) == merge_hosts(
                strs(existing@),
                strs(requested@).take(i as int),
            ),
        decreases requested.len() - i,
    {
        let h = requested[i].as_str();
        assert(strs(requested@).take(i + 1).drop_last() =~= strs(requested@).take(i as int));
        let ghost (n0, a0, b0) = (net@, added@, already@);
        if contains_string(net.as_slice(), h) {
            already.push(requested[i].clone());
            assert(strs(already@) =~= strs(b0).push(h@));
        } else {
            net.push(requested[i].clone());
            added.push(requested[i].clone());
            assert(strs(net@) =~= strs(n0).push(h@));
            assert(strs(added@) =~= strs(a0).push(h@));
        }
        i = i + 1;
    }
    assert(strs(requested@).take(requested@.len() as int) =~= strs(requested@));
    AllowMerge { net, added, already_present: already }
}

// ── gc ─────────────────────────────────────────────────────────────────────

pub open spec fn gone_reason() -> Seq<char> {
    "the project directory no longer exists"@
}

pub open spec fn unidentified_reason() -> Seq<char> {
    "no usable state.json and no environment — nothing identifies a project"@
}

/// Why a project state directory can be removed, if it can. An unreadable
/// `state.json` is not evidence that a project is gone — only that senv
/// cannot tell — so an environment on disk keeps the directory.
/// `recorded_root` is the root a parseable `state.json` names.
pub open spec fn gc_reason_spec(recorded_root: Option<Seq<char>>, root_exists: bool, has_env: bool) -> Option<Seq<char>> {
    match recorded_root {
        Some(r) if r.len() > 0 => if root_exists {
            None
        } else {
            Some(gone_reason())
        },
        _ => if has_env {
            None
        } else {
            Some(unidentified_reason())
        },
    }
}

pub fn gc_reason(recorded_root: Option<&str>, root_exists: bool, has_env: bool) -> (r: Option<&'static str>)
    ensures
        match r {
            Some(t) => gc_reason_spec(crate::policy::home_view(recorded_root), root_exists, has_env) == Some(t@),
            None => gc_reason_spec(crate::policy::home_view(recorded_root), root_exists, has_env) is None,
        },
        // A project that still exists is never removable.
        (recorded_root matches Some(x) && x@.len() > 0 && root_exists) ==> r is None,
{
    match recorded_root {
        Some(x) if x.as_bytes().len() > 0 => {
            proof {
                crate::util::lemma_byte_len_zero(x@);
            }
            if root_exists {
                None
            } else {
                Some("the project directory no longer exists")
            }
        },
        _ => {
            proof {
                if let Some(x) = recorded_root {
                    crate::util::lemma_byte_len_zero(x@);
                }
            }
            if has_env {
                None
            } else {
                Some("no usable state.json and no environment — nothing identifies a project")
            }
        },
    }
}

// ── status ─────────────────────────────────────────────────────────────────

pub open spec fn adopted_warning() -> Seq<char> {
    "this environment was adopted from an existing .venv, so its packages never passed through the install boundary. `senv sync` rebuilds it inside the sandbox."@
}

pub open spec fn no_bytecode_warning(python: Seq<char>) -> Seq<char> {
    "this environment contains no compiled bytecode, so every import recompiles from source on each run. senv compiles it during the install precisely so the run phase does not need a writable cache \u{2014} but this interpreter ("@
        + python
        + ") has sys.pycache_prefix preset and cached it outside the environment instead, where the boundary cannot use it. Apple's system Python does this. Build the environment on a managed interpreter to get it back: `senv init --python 3.13`, or [env] python in senv.toml."@
}

/// What `senv status` warns about the environment: the `.venv` link, an
/// environment adopted from the host, and a sandboxed one without bytecode.
pub open spec fn status_warnings_spec(
    link_warning: Option<Seq<char>>,
    provenance: Provenance,
    has_bytecode: bool,
    python: Option<Seq<char>>,
) -> Seq<Seq<char>> {
    (match link_warning {
        Some(w) => seq![w],
        None => seq![],
    }) + (if provenance == Provenance::HostInstalled {
        seq![adopted_warning()]
    } else {
        seq![]
    }) + (if provenance == Provenance::Sandboxed && !has_bytecode {
        seq![
            no_bytecode_warning(
                match python {
                    Some(p) => p,
                    None => "unknown version"@,
                },
            ),
        ]
    } else {
        seq![]
    })
}

pub fn status_warnings(
    link_warning: Option<String>,
    provenance: Provenance,
    has_bytecode: bool,
    python: Option<&str>,
) -> (r: Vec<String>)
    ensures
        strs(r@) == status_warnings_spec(
            crate::text::opt_str(link_warning),
            provenance,
            has_bytecode,
            crate::policy::home_view(python),
        ),
{
    let mut out: Vec<String> = Vec::new();
    if let Some(w) = link_warning {
        out.push(w);
    }
    let ghost first = strs(out@);
    if provenance == Provenance::HostInstalled {
        out.push(
            String::from_str(
                "this environment was adopted from an existing .venv, so its packages never passed through the install boundary. `senv sync` rebuilds it inside the sandbox.",
            ),
        );
    }
    let ghost second = strs(out@);
    if provenance == Provenance::Sandboxed && !has_bytecode {
        let mut line = chars_of(
            "this environment contains no compiled bytecode, so every import recompiles from source on each run. senv compiles it during the install precisely so the run phase does not need a writable cache \u{2014} but this interpreter (",
        );
        match python {
            Some(p) => extend_str(&mut line, p),
            None => extend_str(&mut line, "unknown version"),
        }
        extend_str(
            &mut line,
            ") has sys.pycache_prefix preset and cached it outside the environment instead, where the boundary cannot use it. Apple's system Python does this. Build the environment on a managed interpreter to get it back: `senv init --python 3.13`, or [env] python in senv.toml.",
        );
        out.push(string_of(line.as_slice()));
    }
    assert(strs(out@) =~= status_warnings_spec(
        crate::text::opt_str(link_warning),
        provenance,
        has_bytecode,
        crate::policy::home_view(python),
    ));
    out
}

/// The resource ceilings `senv status` lists for a phase, by name in
/// ascending order: memory and processes (each marked when this host does
/// not apply it), and the wall clock, which run and shell do not enforce.
pub open spec fn resource_summary_spec(
    p: PhaseProfile,
    run_like: bool,
    mem_enforced: bool,
    procs_enforced: bool,
) -> Seq<(Seq<char>, Seq<char>)> {
    let mem = crate::util::human_bytes_seq(p.mem_bytes as nat);
    seq![("mem"@, if mem_enforced { mem } else { mem + " (NOT enforced on this host)"@ })]
        + (match p.max_procs {
        Some(n) => seq![
            (
                "procs"@,
                if procs_enforced {
                    decimal(n as nat)
                } else {
                    decimal(n as nat) + " (NOT enforced on this host)"@
                },
            ),
        ],
        None => seq![],
    }) + seq![
        (
            "wall"@,
            if run_like {
                format_duration_spec(p.wall_secs as nat) + " (not enforced for run/shell \u{2014} use cpu)"@
            } else {
                format_duration_spec(p.wall_secs as nat)
            },
        ),
    ]
}

pub open spec fn pair_views(v: Seq<(String, String)>) -> Seq<(Seq<char>, Seq<char>)> {
    v.map_values(|p: (String, String)| (p.0@, p.1@))
}

pub fn resource_summary(
    p: &PhaseProfile,
    run_like: bool,
    mem_enforced: bool,
    procs_enforced: bool,
) -> (r: Vec<(String, String)>)
    ensures
        pair_views(r@) == resource_summary_spec(*p, run_like, mem_enforced, procs_enforced),
{
    let mut out: Vec<(String, String)> = Vec::new();
    let mem = annotate(crate::util::human_bytes(p.mem_bytes), mem_enforced);
    out.push((String::from_str("mem"), mem));
    if let Some(n) = p.max_procs {
        let d = decimal_chars(n);
        out.push((String::from_str("procs"), annotate(string_of(d.as_slice()), procs_enforced)));
    }
    let d = format_duration(p.wall_secs);
    let wall = if run_like {
        let mut w = chars_of(d.as_str());
        extend_str(&mut w, " (not enforced for run/shell \u{2014} use cpu)");
        string_of(w.as_slice())
    } else {
        d
    };
    out.push((String::from_str("wall"), wall));
    assert(pair_views(out@) =~= resource_summary_spec(*p, run_like, mem_enforced, procs_enforced));
    out
}

// ── status, as printed ─────────────────────────────────────────────────────

/// What `senv status` reports.
#[derive(Debug, Clone)]
pub struct StatusOutput {
    pub project: String,
    /// The state directory's name.
    pub key: String,
    /// The policy file, when there is one.
    pub config: Option<String>,
    pub state: String,
    pub environment: EnvironmentStatus,
    pub phases: Vec<PhaseStatus>,
    pub warnings: Vec<String>,
}

/// The environment part of `senv status`.
#[derive(Debug, Clone)]
pub struct EnvironmentStatus {
    pub path: String,
    pub exists: bool,
    pub provenance: String,
    pub python: Option<String>,
    pub lock: String,
    pub last_sync: Option<String>,
    pub venv_link: String,
    pub size: String,
}

/// One phase's policy, as `senv status` shows it.
#[derive(Debug, Clone)]
pub struct PhaseStatus {
    pub phase: String,
    /// `None` when this host cannot enforce the phase's policy at all.
    pub tier: Option<String>,
    pub network: String,
    pub writable: Vec<String>,
    pub readable: Vec<String>,
    /// Resource ceilings by name, in the order shown.
    pub resources: Vec<(String, String)>,
    pub policy_digest: Option<String>,
    pub secrets: Vec<String>,
    pub notes: Vec<String>,
    /// Why the phase cannot run here, when it cannot.
    pub unavailable: Option<String>,
}

/// How `senv status` shows a phase this host can run: its tier, network,
/// what it may write and read (from the grants the engine resolved, which
/// include its own built-in ones), its ceilings, digest, secrets and notes.
pub fn phase_status_of(
    phase: crate::policy::Phase,
    tier: crate::config::IsolationClaim,
    profile: &PhaseProfile,
    granted_write: &[String],
    granted_read: &[String],
    work_readonly: bool,
    root: &str,
    venv: &str,
    macos: bool,
    mem_enforced: bool,
    procs_enforced: bool,
    digest: &str,
    notes: &[crate::policy::Note],
) -> (r: PhaseStatus)
    ensures
        r.phase@ == phase.name(),
        crate::text::opt_str(r.tier) == Some(tier.name()),
        r.network@ == describe_net_spec(*profile, macos),
        strs(r.writable@) == writable_summary_spec(root@, strs(granted_write@), work_readonly),
        strs(r.readable@) == readable_summary_spec(venv@, root@, strs(granted_read@)),
        pair_views(r.resources@) == resource_summary_spec(
            *profile,
            phase.run_like(),
            mem_enforced,
            procs_enforced,
        ),
        crate::text::opt_str(r.policy_digest) == Some(digest@),
        r.secrets@ == profile.secrets@,
        strs(r.notes@) == crate::receipt::note_texts(notes@),
        r.unavailable is None,
{
    PhaseStatus {
        phase: String::from_str(phase.as_str()),
        tier: Some(String::from_str(tier.as_str())),
        network: describe_net(profile, macos),
        writable: writable_summary(root, granted_write, work_readonly),
        readable: readable_summary(venv, root, granted_read),
        resources: resource_summary(profile, phase.is_run_like(), mem_enforced, procs_enforced),
        policy_digest: Some(String::from_str(digest)),
        secrets: crate::text::clone_strings(profile.secrets.as_slice()),
        notes: crate::receipt::note_texts_of(notes),
        unavailable: None,
    }
}

/// How `senv status` shows a phase this host cannot run: why, from the
/// engine's refusal — which quotes the grant it refused from `senv.toml`,
/// so it is sanitized, line by line — and nothing else.
pub fn phase_unavailable(phase: crate::policy::Phase, refusal: &str) -> (r: PhaseStatus)
    ensures
        r.phase@ == phase.name(),
        r.tier is None,
        r.network@ == "\u{2014}"@,
        r.writable@.len() == 0,
        r.readable@.len() == 0,
        r.resources@.len() == 0,
        r.policy_digest is None,
        r.secrets@.len() == 0,
        r.notes@.len() == 0,
        crate::text::opt_str(r.unavailable) == Some(crate::util::sanitize_multiline_seq(refusal@)),
{
    PhaseStatus {
        phase: String::from_str(phase.as_str()),
        tier: None,
        network: String::from_str("\u{2014}"),
        writable: Vec::new(),
        readable: Vec::new(),
        resources: Vec::new(),
        policy_digest: None,
        secrets: Vec::new(),
        notes: Vec::new(),
        unavailable: Some(crate::util::sanitize_multiline(refusal)),
    }
}

pub open spec fn status_header(o: StatusOutput) -> Seq<(bool, Seq<char>)> {
    seq![
        out("project      "@ + o.project@),
        out(
            "config       "@ + (match o.config {
                Some(c) => c@,
                None => "(none \u{2014} defaults; write senv.toml to change)"@,
            }),
        ),
        out("state        "@ + o.state@),
        out(seq![]),
    ]
}

pub open spec fn environment_lines(e: EnvironmentStatus) -> Seq<(bool, Seq<char>)> {
    seq![
        out("environment  "@ + e.path@),
        out(
            "  status     "@ + (if e.exists {
                "installed"@
            } else {
                "not created yet"@
            }),
        ),
        out("  provenance "@ + e.provenance@),
    ] + (match e.python {
        Some(p) => seq![out("  python     "@ + p@)],
        None => seq![],
    }) + seq![out("  lockfile   "@ + e.lock@)] + (match e.last_sync {
        Some(t) => seq![out("  last sync  "@ + t@)],
        None => seq![],
    }) + seq![out("  .venv      "@ + e.venv_link@)] + (if e.exists {
        seq![out("  size       "@ + e.size@)]
    } else {
        seq![]
    })
}

/// Each resource ceiling as `name value`.
pub open spec fn limit_texts(rs: Seq<(String, String)>) -> Seq<Seq<char>> {
    rs.map_values(|r: (String, String)| r.0@ + " "@ + r.1@)
}

/// A digest shortened to its first sixteen characters.
pub open spec fn short_digest(d: Seq<char>) -> Seq<char> {
    if d.len() <= 16 {
        d
    } else {
        d.take(16)
    }
}

/// The lines of a phase that can run here, after its heading.
pub open spec fn phase_policy_lines(p: PhaseStatus) -> Seq<(bool, Seq<char>)> {
    seq![out("  network    "@ + p.network@)] + labelled_lines("writable  "@, strs(p.writable@))
        + labelled_lines("readable  "@, strs(p.readable@)) + (if p.resources.len() > 0 {
        seq![out("  limits     "@ + join_seq(limit_texts(p.resources@), ", "@))]
    } else {
        seq![]
    }) + (if p.secrets.len() > 0 {
        seq![out("  secrets    "@ + join_seq(strs(p.secrets@), ", "@))]
    } else {
        seq![]
    }) + (match p.policy_digest {
        Some(d) => seq![out("  digest     "@ + short_digest(d@))],
        None => seq![],
    }) + wrapped_lines(false, "  note       "@, strs(p.notes@), 62, 13)
}

/// One phase's block: a blank line, then either why it cannot run here or
/// its tier and policy.
pub open spec fn phase_lines(p: PhaseStatus) -> Seq<(bool, Seq<char>)> {
    seq![out(seq![])] + (match p.unavailable {
        Some(e) => seq![
            out(p.phase@ + " phase  UNAVAILABLE"@),
            out("  "@ + wrap_spec(e@, 74, 2)),
        ],
        None => (match p.tier {
            Some(t) => seq![out(p.phase@ + " phase  ("@ + t@ + " tier)"@)],
            None => seq![],
        }) + phase_policy_lines(p),
    })
}

pub open spec fn phases_lines(ps: Seq<PhaseStatus>) -> Seq<(bool, Seq<char>)>
    decreases ps.len(),
{
    if ps.len() == 0 {
        seq![]
    } else {
        phases_lines(ps.drop_last()) + phase_lines(ps.last())
    }
}

/// `senv status` in its human form: the project, the environment, each
/// phase's policy, and the warnings on standard error.
pub open spec fn render_status_spec(o: StatusOutput) -> Seq<(bool, Seq<char>)> {
    status_header(o) + environment_lines(o.environment) + phases_lines(o.phases@) + wrapped_lines(
        true,
        "\nwarning: "@,
        strs(o.warnings@),
        74,
        9,
    )
}

fn limit_texts_of(rs: &[(String, String)]) -> (r: Vec<String>)
    ensures
        strs(r@) == limit_texts(rs@),
{
    let mut r: Vec<String> = Vec::new();
    let mut i: usize = 0;
    while i < rs.len()
        invariant
            i <= rs.len(),
            strs(r@) == limit_texts(rs@.take(i as int)),
        decreases rs.len() - i,
    {
        let mut t = chars_of(rs[i].0.as_str());
        extend_str(&mut t, " ");
        extend_str(&mut t, rs[i].1.as_str());
        let ghost before = r@;
        r.push(string_of(t.as_slice()));
        assert(strs(r@) =~= strs(before).push(rs@[i as int].0@ + " "@ + rs@[i as int].1@));
        assert(limit_texts(rs@.take(i + 1)) =~= limit_texts(rs@.take(i as int)).push(
            rs@[i as int].0@ + " "@ + rs@[i as int].1@,
        ));
        i = i + 1;
    }
    assert(rs@.take(rs.len() as int) =~= rs@);
    r
}

fn push_environment(lines: &mut Vec<Line>, e: &EnvironmentStatus)
    ensures
        lines_view(final(lines)@) == lines_view(old(lines)@) + environment_lines(*e),
{
    let ghost before = lines_view(lines@);
    say(lines, false, "environment  ", e.path.as_str());
    if e.exists {
        say(lines, false, "  status     ", "installed");
    } else {
        say(lines, false, "  status     ", "not created yet");
    }
    say(lines, false, "  provenance ", e.provenance.as_str());
    let ghost a = lines_view(lines@);
    if let Some(p) = &e.python {
        say(lines, false, "  python     ", p.as_str());
    }
    let ghost b = lines_view(lines@);
    say(lines, false, "  lockfile   ", e.lock.as_str());
    let ghost c = lines_view(lines@);
    if let Some(t) = &e.last_sync {
        say(lines, false, "  last sync  ", t.as_str());
    }
    let ghost d = lines_view(lines@);
    say(lines, false, "  .venv      ", e.venv_link.as_str());
    let ghost f = lines_view(lines@);
    if e.exists {
        say(lines, false, "  size       ", e.size.as_str());
    }
    assert(a =~= before + seq![
        out("environment  "@ + e.path@),
        out("  status     "@ + (if e.exists { "installed"@ } else { "not created yet"@ })),
        out("  provenance "@ + e.provenance@),
    ]);
    assert(b =~= a + (match e.python {
        Some(p) => seq![out("  python     "@ + p@)],
        None => seq![],
    }));
    assert(c =~= b + seq![out("  lockfile   "@ + e.lock@)]);
    assert(d =~= c + (match e.last_sync {
        Some(t) => seq![out("  last sync  "@ + t@)],
        None => seq![],
    }));
    assert(f =~= d + seq![out("  .venv      "@ + e.venv_link@)]);
    assert(lines_view(lines@) =~= f + (if e.exists {
        seq![out("  size       "@ + e.size@)]
    } else {
        seq![]
    }));
    assert(lines_view(lines@) =~= before + environment_lines(*e));
}

fn push_phase_policy(lines: &mut Vec<Line>, p: &PhaseStatus)
    ensures
        lines_view(final(lines)@) == lines_view(old(lines)@) + phase_policy_lines(*p),
{
    let ghost before = lines_view(lines@);
    say(lines, false, "  network    ", p.network.as_str());
    let ghost a = lines_view(lines@);
    push_labelled(lines, "writable  ", p.writable.as_slice());
    let ghost b = lines_view(lines@);
    push_labelled(lines, "readable  ", p.readable.as_slice());
    let ghost c = lines_view(lines@);
    if p.resources.len() > 0 {
        let texts = limit_texts_of(p.resources.as_slice());
        let joined = crate::config::join_strings(texts.as_slice(), ", ");
        let mut t = chars_of("  limits     ");
        extend_chars(&mut t, joined.as_slice());
        emit(lines, false, t.as_slice());
    }
    let ghost d = lines_view(lines@);
    if p.secrets.len() > 0 {
        let joined = crate::config::join_strings(p.secrets.as_slice(), ", ");
        let mut t = chars_of("  secrets    ");
        extend_chars(&mut t, joined.as_slice());
        emit(lines, false, t.as_slice());
    }
    let ghost f = lines_view(lines@);
    if let Some(dg) = &p.policy_digest {
        let all = chars_of(dg.as_str());
        let n: usize = if all.len() <= 16 { all.len() } else { 16 };
        let short = crate::text::slice_of(all.as_slice(), 0, n);
        let mut t = chars_of("  digest     ");
        extend_chars(&mut t, short.as_slice());
        proof {
            if all.len() <= 16 {
                assert(all@.subrange(0, n as int) =~= all@);
            }
        }
        emit(lines, false, t.as_slice());
    }
    let ghost g = lines_view(lines@);
    push_wrapped(lines, false, "  note       ", p.notes.as_slice(), 62, 13);
    assert(a =~= before + seq![out("  network    "@ + p.network@)]);
    assert(d =~= c + (if p.resources.len() > 0 {
        seq![out("  limits     "@ + join_seq(limit_texts(p.resources@), ", "@))]
    } else {
        seq![]
    }));
    assert(f =~= d + (if p.secrets.len() > 0 {
        seq![out("  secrets    "@ + join_seq(strs(p.secrets@), ", "@))]
    } else {
        seq![]
    }));
    assert(g =~= f + (match p.policy_digest {
        Some(dg) => seq![out("  digest     "@ + short_digest(dg@))],
        None => seq![],
    }));
    assert(lines_view(lines@) =~= before + phase_policy_lines(*p));
}

fn push_phase(lines: &mut Vec<Line>, p: &PhaseStatus)
    ensures
        lines_view(final(lines)@) == lines_view(old(lines)@) + phase_lines(*p),
{
    let ghost before = lines_view(lines@);
    blank(lines, false);
    let ghost a = lines_view(lines@);
    match &p.unavailable {
        Some(e) => {
            say(lines, false, p.phase.as_str(), " phase  UNAVAILABLE");
            let w = crate::exec::wrap(e.as_str(), 74, 2);
            say(lines, false, "  ", w.as_str());
            assert(lines_view(lines@) =~= a + seq![
                out(p.phase@ + " phase  UNAVAILABLE"@),
                out("  "@ + wrap_spec(e@, 74, 2)),
            ]);
        },
        None => {
            if let Some(t) = &p.tier {
                let mut h = chars_of(p.phase.as_str());
                extend_str(&mut h, " phase  (");
                extend_str(&mut h, t.as_str());
                extend_str(&mut h, " tier)");
                emit(lines, false, h.as_slice());
            }
            let ghost b = lines_view(lines@);
            assert(b =~= a + (match p.tier {
                Some(t) => seq![out(p.phase@ + " phase  ("@ + t@ + " tier)"@)],
                None => seq![],
            }));
            push_phase_policy(lines, p);
            assert(lines_view(lines@) =~= a + ((match p.tier {
                Some(t) => seq![out(p.phase@ + " phase  ("@ + t@ + " tier)"@)],
                None => seq![],
            }) + phase_policy_lines(*p)));
        },
    }
    assert(lines_view(lines@) =~= before + phase_lines(*p));
}

/// `senv status` in its human form.
pub fn render_status(o: &StatusOutput) -> (r: Vec<Line>)
    ensures
        lines_view(r@) == render_status_spec(*o),
{
    let mut lines: Vec<Line> = Vec::new();
    say(&mut lines, false, "project      ", o.project.as_str());
    match &o.config {
        Some(c) => say(&mut lines, false, "config       ", c.as_str()),
        None => say(
            &mut lines,
            false,
            "config       ",
            "(none \u{2014} defaults; write senv.toml to change)",
        ),
    }
    say(&mut lines, false, "state        ", o.state.as_str());
    blank(&mut lines, false);
    assert(lines_view(lines@) =~= status_header(*o));
    push_environment(&mut lines, &o.environment);
    let ghost head = status_header(*o) + environment_lines(o.environment);
    let mut i: usize = 0;
    while i < o.phases.len()
        invariant
            i <= o.phases.len(),
            lines_view(lines@) == head + phases_lines(o.phases@.take(i as int)),
        decreases o.phases.len() - i,
    {
        push_phase(&mut lines, &o.phases[i]);
        assert(o.phases@.take(i + 1).drop_last() =~= o.phases@.take(i as int));
        assert(head + phases_lines(o.phases@.take(i + 1)) =~= head + phases_lines(
            o.phases@.take(i as int),
        ) + phase_lines(o.phases@[i as int]));
        i = i + 1;
    }
    assert(o.phases@.take(o.phases.len() as int) =~= o.phases@);
    push_wrapped(&mut lines, true, "\nwarning: ", o.warnings.as_slice(), 74, 9);
    lines
}

// ── report, allow and trust, as printed ────────────────────────────────────

/// What `senv report` shows.
#[derive(Debug, Clone)]
pub struct ReportOutput {
    pub receipt: String,
    pub total_commands: usize,
    /// The most recent commands, newest first.
    pub recent: Vec<RecentEntry>,
    pub blocked_hosts: Vec<String>,
    pub blocked_paths: Vec<String>,
    pub blocked_by_design: Vec<String>,
    /// Refusals whose destination the error never named.
    pub blocked_unnamed: usize,
    pub suggestion: Option<String>,
}

/// One command from the receipts.
#[derive(Debug, Clone)]
pub struct RecentEntry {
    pub ts: String,
    pub phase: String,
    pub tier: String,
    pub command: String,
    pub exit_code: Option<i32>,
    pub denials: usize,
}

/// How a recorded command ended: `ok`, `exit` and its code, or `kill`.
pub open spec fn exit_status_text(code: Option<i32>) -> Seq<char> {
    match code {
        Some(c) => if c == 0 {
            "ok  "@
        } else {
            "exit"@ + pad_right(signed_decimal(c as int), 2)
        },
        None => "kill"@,
    }
}

pub open spec fn recent_text(e: RecentEntry) -> Seq<char> {
    e.ts@ + "  "@ + exit_status_text(e.exit_code) + "  "@ + pad_right(e.phase@, 9) + " "@ + e.command@
        + if e.denials > 0 {
        "  "@ + decimal(e.denials as nat) + " blocked"@
    } else {
        seq![]
    }
}

pub open spec fn recent_lines(rs: Seq<RecentEntry>) -> Seq<(bool, Seq<char>)> {
    if rs.len() == 0 {
        seq![]
    } else {
        seq![out(seq![])] + Seq::new(rs.len(), |i: int| out(recent_text(rs[i])))
    }
}

pub open spec fn report_suggestion_lines(o: ReportOutput) -> Seq<(bool, Seq<char>)> {
    match o.suggestion {
        Some(t) => seq![out("\n"@ + t@)],
        None => if o.blocked_hosts.len() > 0 || o.blocked_paths.len() > 0 {
            seq![out("\nrun `senv report --suggest` for a policy stanza covering these"@)]
        } else {
            seq![]
        },
    }
}

/// What `senv report` lists as blocked.
pub open spec fn report_blocked_lines(o: ReportOutput) -> Seq<(bool, Seq<char>)> {
    (if o.blocked_hosts.len() > 0 {
        seq![out("\nblocked hosts:  "@ + join_seq(strs(o.blocked_hosts@), ", "@))]
    } else {
        seq![]
    }) + (if o.blocked_paths.len() > 0 {
        seq![out("blocked paths:  "@ + join_seq(strs(o.blocked_paths@), ", "@))]
    } else {
        seq![]
    }) + (if o.blocked_by_design.len() > 0 {
        seq![
            out(
                "blocked by design (not suggestable):  "@ + join_seq(
                    strs(o.blocked_by_design@),
                    ", "@,
                ),
            ),
        ]
    } else {
        seq![]
    }) + (if o.blocked_unnamed > 0 {
        seq![
            out(
                "blocked connections whose host the error did not name:  "@ + decimal(
                    o.blocked_unnamed as nat,
                ),
            ),
        ]
    } else {
        seq![]
    })
}

/// `senv report` in its human form: the recent commands, what was blocked,
/// and the stanza that would allow it (or how to ask for one).
pub open spec fn render_report_spec(o: ReportOutput) -> Seq<(bool, Seq<char>)> {
    seq![
        out("receipt  "@ + o.receipt@),
        out("commands "@ + decimal(o.total_commands as nat)),
    ] + recent_lines(o.recent@) + report_blocked_lines(o) + report_suggestion_lines(o)
}

fn recent_chars(e: &RecentEntry) -> (r: Vec<char>)
    ensures
        r@ == recent_text(*e),
{
    let mut t = chars_of(e.ts.as_str());
    extend_str(&mut t, "  ");
    let ghost a = t@;
    match e.exit_code {
        Some(c) => {
            if c == 0 {
                extend_str(&mut t, "ok  ");
            } else {
                extend_str(&mut t, "exit");
                let d = signed_decimal_chars(c);
                push_padded_right(&mut t, d.as_slice(), 2);
            }
        },
        None => extend_str(&mut t, "kill"),
    }
    assert(t@ =~= a + exit_status_text(e.exit_code));
    extend_str(&mut t, "  ");
    let ph = chars_of(e.phase.as_str());
    push_padded_right(&mut t, ph.as_slice(), 9);
    extend_str(&mut t, " ");
    extend_str(&mut t, e.command.as_str());
    let ghost b = t@;
    if e.denials > 0 {
        extend_str(&mut t, "  ");
        let d = decimal_chars(e.denials as u64);
        extend_chars(&mut t, d.as_slice());
        extend_str(&mut t, " blocked");
    }
    assert(t@ =~= recent_text(*e));
    t
}

/// Appends `prefix` followed by `items` joined with `", "`.
fn say_joined(lines: &mut Vec<Line>, prefix: &str, items: &[String], suffix: &str)
    ensures
        lines_view(final(lines)@) == lines_view(old(lines)@).push(
            out(prefix@ + join_seq(strs(items@), ", "@) + suffix@),
        ),
{
    let joined = crate::config::join_strings(items, ", ");
    let mut t = chars_of(prefix);
    extend_chars(&mut t, joined.as_slice());
    extend_str(&mut t, suffix);
    emit(lines, false, t.as_slice());
}

/// Appends `prefix` followed by `n` in decimal.
fn say_count(lines: &mut Vec<Line>, prefix: &str, n: usize)
    ensures
        lines_view(final(lines)@) == lines_view(old(lines)@).push(out(prefix@ + decimal(n as nat))),
{
    let d = decimal_chars(n as u64);
    let mut t = chars_of(prefix);
    extend_chars(&mut t, d.as_slice());
    emit(lines, false, t.as_slice());
}

fn push_recent(lines: &mut Vec<Line>, rs: &[RecentEntry])
    ensures
        lines_view(final(lines)@) == lines_view(old(lines)@) + recent_lines(rs@),
{
    let ghost head = lines_view(lines@);
    if rs.len() > 0 {
        blank(lines, false);
        let ghost start = lines_view(lines@);
        let mut i: usize = 0;
        while i < rs.len()
            invariant
                i <= rs.len(),
                lines_view(lines@) == start + Seq::new(i as nat, |k: int| out(recent_text(rs@[k]))),
            decreases rs.len() - i,
        {
            let t = recent_chars(&rs[i]);
            emit(lines, false, t.as_slice());
            assert(start + Seq::new((i + 1) as nat, |k: int| out(recent_text(rs@[k]))) =~= (start
                + Seq::new(i as nat, |k: int| out(recent_text(rs@[k])))).push(
                out(recent_text(rs@[i as int])),
            ));
            i = i + 1;
        }
    }
    assert(lines_view(lines@) =~= head + recent_lines(rs@));
}

fn push_blocked(lines: &mut Vec<Line>, o: &ReportOutput)
    ensures
        lines_view(final(lines)@) == lines_view(old(lines)@) + report_blocked_lines(*o),
{
    let ghost a = lines_view(lines@);
    let empty = "";
    proof {
        reveal_strlit("");
    }
    if o.blocked_hosts.len() > 0 {
        say_joined(lines, "\nblocked hosts:  ", o.blocked_hosts.as_slice(), empty);
    }
    let ghost b = lines_view(lines@);
    if o.blocked_paths.len() > 0 {
        say_joined(lines, "blocked paths:  ", o.blocked_paths.as_slice(), empty);
    }
    let ghost c = lines_view(lines@);
    if o.blocked_by_design.len() > 0 {
        say_joined(
            lines,
            "blocked by design (not suggestable):  ",
            o.blocked_by_design.as_slice(),
            empty,
        );
    }
    let ghost d = lines_view(lines@);
    if o.blocked_unnamed > 0 {
        say_count(
            lines,
            "blocked connections whose host the error did not name:  ",
            o.blocked_unnamed,
        );
    }
    assert(b =~= a + (if o.blocked_hosts.len() > 0 {
        seq![out("\nblocked hosts:  "@ + join_seq(strs(o.blocked_hosts@), ", "@))]
    } else {
        seq![]
    }));
    assert(c =~= b + (if o.blocked_paths.len() > 0 {
        seq![out("blocked paths:  "@ + join_seq(strs(o.blocked_paths@), ", "@))]
    } else {
        seq![]
    }));
    assert(d =~= c + (if o.blocked_by_design.len() > 0 {
        seq![
            out(
                "blocked by design (not suggestable):  "@ + join_seq(
                    strs(o.blocked_by_design@),
                    ", "@,
                ),
            ),
        ]
    } else {
        seq![]
    }));
    assert(lines_view(lines@) =~= a + report_blocked_lines(*o));
}

/// `senv report` in its human form.
pub fn render_report(o: &ReportOutput) -> (r: Vec<Line>)
    ensures
        lines_view(r@) == render_report_spec(*o),
{
    let mut lines: Vec<Line> = Vec::new();
    say(&mut lines, false, "receipt  ", o.receipt.as_str());
    say_count(&mut lines, "commands ", o.total_commands);
    push_recent(&mut lines, o.recent.as_slice());
    push_blocked(&mut lines, o);
    let ghost f = lines_view(lines@);
    let empty = "";
    proof {
        reveal_strlit("");
    }
    match &o.suggestion {
        Some(t) => say(&mut lines, false, "\n", t.as_str()),
        None => {
            if o.blocked_hosts.len() > 0 || o.blocked_paths.len() > 0 {
                say(
                    &mut lines,
                    false,
                    "\nrun `senv report --suggest` for a policy stanza covering these",
                    empty,
                );
            }
        },
    }
    assert(lines_view(lines@) =~= f + report_suggestion_lines(*o));
    assert(lines_view(lines@) =~= render_report_spec(*o));
    lines
}

/// The denials of a run of receipts, oldest first.
pub open spec fn record_denials(rs: Seq<crate::receipt::Record>) -> Seq<DenialView>
    decreases rs.len(),
{
    if rs.len() == 0 {
        seq![]
    } else {
        record_denials(rs.drop_last()) + denial_views(rs.last().denials@)
    }
}

/// `e` is how `senv report` lists the receipt `r`.
pub open spec fn lists(e: RecentEntry, r: crate::receipt::Record) -> bool {
    &&& e.ts@ == r.ts@
    &&& e.phase@ == r.phase@
    &&& e.tier@ == r.tier@
    &&& e.command@ == shorten_command_spec(strs(r.argv@))
    &&& e.exit_code == r.exit_code
    &&& e.denials == r.denials.len()
}

/// How `senv report` lists one receipt.
pub fn recent_entry(r: &crate::receipt::Record) -> (e: RecentEntry)
    ensures
        lists(e, *r),
{
    RecentEntry {
        ts: string_of(chars_of(r.ts.as_str()).as_slice()),
        phase: string_of(chars_of(r.phase.as_str()).as_slice()),
        tier: string_of(chars_of(r.tier.as_str()).as_slice()),
        command: shorten_command(r.argv.as_slice()),
        exit_code: r.exit_code,
        denials: r.denials.len(),
    }
}

fn denials_across(records: &[crate::receipt::Record]) -> (r: Vec<Denial>)
    ensures
        denial_views(r@) == record_denials(records@),
{
    let mut out: Vec<Denial> = Vec::new();
    let mut i: usize = 0;
    while i < records.len()
        invariant
            i <= records@.len(),
            denial_views(out@) == record_denials(records@.take(i as int)),
        decreases records.len() - i,
    {
        let ds = &records[i].denials;
        let ghost start = denial_views(out@);
        let mut j: usize = 0;
        while j < ds.len()
            invariant
                j <= ds@.len(),
                denial_views(out@) == start + denial_views(ds@).take(j as int),
            decreases ds.len() - j,
        {
            let ghost before = out@;
            out.push(ds[j].copy());
            assert(denial_views(out@) =~= denial_views(before).push(ds@[j as int]@));
            assert(denial_views(ds@).take(j + 1) =~= denial_views(ds@).take(j as int).push(
                ds@[j as int]@,
            ));
            j = j + 1;
        }
        assert(denial_views(ds@).take(ds@.len() as int) =~= denial_views(ds@));
        assert(records@.take(i + 1).drop_last() =~= records@.take(i as int));
        i = i + 1;
    }
    assert(records@.take(records@.len() as int) =~= records@);
    out
}

/// What `senv report` shows of a project's receipts (oldest first): how
/// many commands they record, the last `limit` of them newest first, what
/// was blocked across all of them, and — when asked for — the stanza that
/// would allow what could be allowed.
pub fn report_of(receipt: &str, records: &[crate::receipt::Record], limit: usize, suggest: bool) -> (r: ReportOutput)
    ensures
        r.receipt@ == receipt@,
        r.total_commands == records.len(),
        r.recent.len() == (if limit < records.len() { limit } else { records.len() }),
        forall|i: int| 0 <= i < r.recent.len() ==> lists(#[trigger] r.recent@[i], records@[records.len() - 1 - i]),
        ({
            let ds = record_denials(records@);
            let (h, p, b, u) = blocked_upto(ds, ds.len() as int);
            &&& strs(r.blocked_hosts@) == h
            &&& strs(r.blocked_paths@) == p
            &&& strs(r.blocked_by_design@) == b
            &&& r.blocked_unnamed == u
        }),
        suggest ==> (r.suggestion matches Some(t) && t@ == suggest_stanza_spec(
            strs(r.blocked_hosts@),
            strs(r.blocked_paths@),
        )),
        !suggest ==> r.suggestion is None,
{
    let n = records.len();
    let mut recent: Vec<RecentEntry> = Vec::new();
    let mut i: usize = 0;
    while i < limit && i < n
        invariant
            n == records.len(),
            i <= n,
            recent.len() == i,
            i <= limit,
            forall|k: int| 0 <= k < i ==> lists(#[trigger] recent@[k], records@[n - 1 - k]),
        decreases n - i,
    {
        recent.push(recent_entry(&records[n - 1 - i]));
        i = i + 1;
    }
    let all = denials_across(records);
    let blocked = tally_blocked(&all);
    let suggestion = if suggest {
        Some(suggest_stanza(blocked.hosts.as_slice(), blocked.paths.as_slice()))
    } else {
        None
    };
    ReportOutput {
        receipt: String::from_str(receipt),
        total_commands: n,
        recent,
        blocked_hosts: blocked.hosts,
        blocked_paths: blocked.paths,
        blocked_by_design: blocked.by_design,
        blocked_unnamed: blocked.unnamed,
        suggestion,
    }
}

/// What `senv allow` did.
#[derive(Debug, Clone)]
pub struct AllowOutput {
    pub config: String,
    pub added: Vec<String>,
    pub already_present: Vec<String>,
    pub net: Vec<String>,
    pub warnings: Vec<String>,
}

/// `senv allow` in its human form: warnings first, then what was added,
/// what already was, and what the run phase may now reach.
pub open spec fn render_allow_spec(o: AllowOutput) -> Seq<(bool, Seq<char>)> {
    wrapped_lines(true, "warning: "@, strs(o.warnings@), 74, 9) + (if o.added.len() > 0 {
        seq![out("allowed "@ + join_seq(strs(o.added@), ", "@) + " in "@ + o.config@)]
    } else {
        seq![]
    }) + (if o.already_present.len() > 0 && o.added.len() == 0 && o.warnings.len() == 0 {
        seq![out("already allowed: "@ + join_seq(strs(o.already_present@), ", "@))]
    } else {
        seq![]
    }) + (if o.net.len() > 0 {
        seq![out("the run phase may now reach: "@ + join_seq(strs(o.net@), ", "@))]
    } else {
        seq![]
    })
}

/// `senv allow` in its human form.
pub fn render_allow(o: &AllowOutput) -> (r: Vec<Line>)
    ensures
        lines_view(r@) == render_allow_spec(*o),
{
    let mut lines: Vec<Line> = Vec::new();
    push_wrapped(&mut lines, true, "warning: ", o.warnings.as_slice(), 74, 9);
    let ghost a = lines_view(lines@);
    let empty = "";
    proof {
        reveal_strlit("");
    }
    if o.added.len() > 0 {
        let mut tail = chars_of(" in ");
        extend_str(&mut tail, o.config.as_str());
        let tail = string_of(tail.as_slice());
        say_joined(&mut lines, "allowed ", o.added.as_slice(), tail.as_str());
        assert("allowed "@ + join_seq(strs(o.added@), ", "@) + tail@ =~= "allowed "@ + join_seq(
            strs(o.added@),
            ", "@,
        ) + " in "@ + o.config@);
    }
    let ghost b = lines_view(lines@);
    if o.already_present.len() > 0 && o.added.len() == 0 && o.warnings.len() == 0 {
        say_joined(&mut lines, "already allowed: ", o.already_present.as_slice(), empty);
    }
    let ghost c = lines_view(lines@);
    if o.net.len() > 0 {
        say_joined(&mut lines, "the run phase may now reach: ", o.net.as_slice(), empty);
    }
    assert(b =~= a + (if o.added.len() > 0 {
        seq![out("allowed "@ + join_seq(strs(o.added@), ", "@) + " in "@ + o.config@)]
    } else {
        seq![]
    }));
    assert(c =~= b + (if o.already_present.len() > 0 && o.added.len() == 0 && o.warnings.len()
        == 0 {
        seq![out("already allowed: "@ + join_seq(strs(o.already_present@), ", "@))]
    } else {
        seq![]
    }));
    assert(lines_view(lines@) =~= render_allow_spec(*o));
    lines
}

/// What `senv trust` accepted.
#[derive(Debug, Clone)]
pub struct TrustOutput {
    pub config: String,
    pub accepted: Vec<String>,
}

/// `senv trust` in its human form: that nothing was new, or each widening
/// it accepted.
pub open spec fn render_trust_spec(o: TrustOutput) -> Seq<(bool, Seq<char>)> {
    if o.accepted.len() == 0 {
        seq![
            out(
                "nothing to accept \u{2014} "@ + o.config@ + " already matches what senv recorded"@,
            ),
        ]
    } else {
        seq![
            out(
                "accepted "@ + decimal(o.accepted.len() as nat) + " widening(s) in "@ + o.config@
                    + ":"@,
            ),
        ] + prefixed_lines(false, "  + "@, strs(o.accepted@))
    }
}

/// `senv trust` in its human form.
pub fn render_trust(o: &TrustOutput) -> (r: Vec<Line>)
    ensures
        lines_view(r@) == render_trust_spec(*o),
{
    let mut lines: Vec<Line> = Vec::new();
    if o.accepted.len() == 0 {
        let mut t = chars_of("nothing to accept \u{2014} ");
        extend_str(&mut t, o.config.as_str());
        extend_str(&mut t, " already matches what senv recorded");
        emit(&mut lines, false, t.as_slice());
    } else {
        let mut t = chars_of("accepted ");
        let d = decimal_chars(o.accepted.len() as u64);
        extend_chars(&mut t, d.as_slice());
        extend_str(&mut t, " widening(s) in ");
        extend_str(&mut t, o.config.as_str());
        extend_str(&mut t, ":");
        emit(&mut lines, false, t.as_slice());
        push_prefixed(&mut lines, false, "  + ", o.accepted.as_slice());
    }
    lines
}

// ── doctor and gc, as printed ──────────────────────────────────────────────

/// What `senv doctor` found on this host and for this project.
#[derive(Debug, Clone)]
pub struct DoctorOutput {
    pub os: String,
    pub mechanism: String,
    pub strongest_tier: String,
    pub syscall_filter: bool,
    pub memory_limit: bool,
    pub process_limit: bool,
    pub egress_allowlist: bool,
    pub tiers: Vec<TierStatus>,
    /// What the supervised tier lacks here.
    pub supervised_missing: Vec<String>,
    pub uv: Option<String>,
    pub verdicts: Vec<PhaseVerdict>,
}

/// Whether one isolation tier can be used here.
#[derive(Debug, Clone)]
pub struct TierStatus {
    pub tier: String,
    pub available: bool,
    pub note: Option<String>,
}

/// Whether one of this project's phases can run here, and how.
#[derive(Debug, Clone)]
pub struct PhaseVerdict {
    pub phase: String,
    pub ok: bool,
    pub detail: String,
}

pub open spec fn yes_no_spec(v: bool) -> Seq<char> {
    if v {
        "yes"@
    } else {
        "no "@
    }
}

pub open spec fn tier_text(t: TierStatus) -> Seq<char> {
    "  "@ + pad_right(t.tier@, 20) + " "@ + yes_no_spec(t.available) + match t.note {
        Some(n) => "  ("@ + n@ + ")"@,
        None => seq![],
    }
}

pub open spec fn verdict_text(v: PhaseVerdict) -> Seq<char> {
    "  "@ + pad_right(v.phase@, 9) + " "@ + yes_no_spec(v.ok) + " "@ + v.detail@
}

/// Why installs need the supervised tier, and what to do without it.
pub open spec fn supervised_advice(macos: bool) -> Seq<char> {
    "Installs need it to restrict egress to package registries. "@ + crate::policy::supervisor_remedy_spec(macos)
        + " Without it, set [install] net = \"host\" to install with unrestricted network access \u{2014} warned and recorded."@
}

pub open spec fn doctor_header(o: DoctorOutput) -> Seq<(bool, Seq<char>)> {
    seq![
        out("host         "@ + o.os@ + " ("@ + o.mechanism@ + ")"@),
        out(
            "uv           "@ + (match o.uv {
                Some(u) => u@,
                None => "NOT FOUND"@,
            }),
        ),
        out(seq![]),
        out("enforcement"@),
        out("  syscall filter    "@ + yes_no_spec(o.syscall_filter)),
        out("  memory limits     "@ + yes_no_spec(o.memory_limit)),
        out("  process limits    "@ + yes_no_spec(o.process_limit)),
        out("  egress allowlist  "@ + yes_no_spec(o.egress_allowlist)),
        out(seq![]),
        out("isolation tiers"@),
    ]
}

pub open spec fn doctor_missing_lines(o: DoctorOutput, macos: bool) -> Seq<(bool, Seq<char>)> {
    if o.supervised_missing.len() > 0 {
        seq![out("\nthe supervised tier is unavailable because:"@)] + prefixed_lines(
            false,
            "  - "@,
            strs(o.supervised_missing@),
        ) + seq![out("  "@ + wrap_spec(supervised_advice(macos), 74, 2))]
    } else {
        seq![]
    }
}

pub open spec fn doctor_verdict_lines(o: DoctorOutput) -> Seq<(bool, Seq<char>)> {
    if o.verdicts.len() > 0 {
        seq![out("\nthis project"@)] + Seq::new(
            o.verdicts@.len(),
            |i: int| out(verdict_text(o.verdicts@[i])),
        )
    } else {
        seq![]
    }
}

/// `senv doctor` in its human form: the host, what it enforces, each tier,
/// what the supervised tier lacks, and this project's phases.
pub open spec fn render_doctor_spec(o: DoctorOutput, macos: bool) -> Seq<(bool, Seq<char>)> {
    doctor_header(o) + Seq::new(o.tiers@.len(), |i: int| out(tier_text(o.tiers@[i])))
        + doctor_missing_lines(o, macos) + doctor_verdict_lines(o)
}

fn tier_chars(t: &TierStatus) -> (r: Vec<char>)
    ensures
        r@ == tier_text(*t),
{
    let mut r = chars_of("  ");
    let name = chars_of(t.tier.as_str());
    push_padded_right(&mut r, name.as_slice(), 20);
    extend_str(&mut r, " ");
    extend_str(&mut r, yes_no(t.available));
    if let Some(n) = &t.note {
        extend_str(&mut r, "  (");
        extend_str(&mut r, n.as_str());
        extend_str(&mut r, ")");
    }
    assert(r@ =~= tier_text(*t));
    r
}

fn verdict_chars(v: &PhaseVerdict) -> (r: Vec<char>)
    ensures
        r@ == verdict_text(*v),
{
    let mut r = chars_of("  ");
    let name = chars_of(v.phase.as_str());
    push_padded_right(&mut r, name.as_slice(), 9);
    extend_str(&mut r, " ");
    extend_str(&mut r, yes_no(v.ok));
    extend_str(&mut r, " ");
    extend_str(&mut r, v.detail.as_str());
    assert(r@ =~= verdict_text(*v));
    r
}

fn push_doctor_header(lines: &mut Vec<Line>, o: &DoctorOutput)
    ensures
        lines_view(final(lines)@) == lines_view(old(lines)@) + doctor_header(*o),
{
    let ghost before = lines_view(lines@);
    let mut h = chars_of("host         ");
    extend_str(&mut h, o.os.as_str());
    extend_str(&mut h, " (");
    extend_str(&mut h, o.mechanism.as_str());
    extend_str(&mut h, ")");
    emit(lines, false, h.as_slice());
    match &o.uv {
        Some(u) => say(lines, false, "uv           ", u.as_str()),
        None => say(lines, false, "uv           ", "NOT FOUND"),
    }
    blank(lines, false);
    let ghost a = lines_view(lines@);
    emit(lines, false, chars_of("enforcement").as_slice());
    say(lines, false, "  syscall filter    ", yes_no(o.syscall_filter));
    say(lines, false, "  memory limits     ", yes_no(o.memory_limit));
    say(lines, false, "  process limits    ", yes_no(o.process_limit));
    say(lines, false, "  egress allowlist  ", yes_no(o.egress_allowlist));
    blank(lines, false);
    emit(lines, false, chars_of("isolation tiers").as_slice());
    assert(lines_view(lines@) =~= before + doctor_header(*o));
}

fn push_doctor_missing(lines: &mut Vec<Line>, o: &DoctorOutput, macos: bool)
    ensures
        lines_view(final(lines)@) == lines_view(old(lines)@) + doctor_missing_lines(*o, macos),
{
    let ghost before = lines_view(lines@);
    if o.supervised_missing.len() > 0 {
        emit(lines, false, chars_of("\nthe supervised tier is unavailable because:").as_slice());
        push_prefixed(lines, false, "  - ", o.supervised_missing.as_slice());
        let mut advice = chars_of("Installs need it to restrict egress to package registries. ");
        extend_str(&mut advice, crate::policy::supervisor_remedy(macos));
        extend_str(
            &mut advice,
            " Without it, set [install] net = \"host\" to install with unrestricted network access \u{2014} warned and recorded.",
        );
        assert(advice@ =~= supervised_advice(macos));
        let text = string_of(advice.as_slice());
        let w = crate::exec::wrap(text.as_str(), 74, 2);
        say(lines, false, "  ", w.as_str());
    }
    assert(lines_view(lines@) =~= before + doctor_missing_lines(*o, macos));
}

fn push_doctor_verdicts(lines: &mut Vec<Line>, o: &DoctorOutput)
    ensures
        lines_view(final(lines)@) == lines_view(old(lines)@) + doctor_verdict_lines(*o),
{
    let ghost before = lines_view(lines@);
    if o.verdicts.len() > 0 {
        emit(lines, false, chars_of("\nthis project").as_slice());
        let ghost start = lines_view(lines@);
        let mut i: usize = 0;
        while i < o.verdicts.len()
            invariant
                i <= o.verdicts.len(),
                lines_view(lines@) == start + Seq::new(
                    i as nat,
                    |k: int| out(verdict_text(o.verdicts@[k])),
                ),
            decreases o.verdicts.len() - i,
        {
            let t = verdict_chars(&o.verdicts[i]);
            emit(lines, false, t.as_slice());
            assert(start + Seq::new((i + 1) as nat, |k: int| out(verdict_text(o.verdicts@[k])))
                =~= (start + Seq::new(i as nat, |k: int| out(verdict_text(o.verdicts@[k])))).push(
                out(verdict_text(o.verdicts@[i as int])),
            ));
            i = i + 1;
        }
    }
    assert(lines_view(lines@) =~= before + doctor_verdict_lines(*o));
}

/// `senv doctor` in its human form; `macos` picks the advice for a missing
/// supervised tier.
pub fn render_doctor(o: &DoctorOutput, macos: bool) -> (r: Vec<Line>)
    ensures
        lines_view(r@) == render_doctor_spec(*o, macos),
{
    let mut lines: Vec<Line> = Vec::new();
    push_doctor_header(&mut lines, o);
    let ghost start = lines_view(lines@);
    let mut i: usize = 0;
    while i < o.tiers.len()
        invariant
            i <= o.tiers.len(),
            lines_view(lines@) == start + Seq::new(i as nat, |k: int| out(tier_text(o.tiers@[k]))),
        decreases o.tiers.len() - i,
    {
        let t = tier_chars(&o.tiers[i]);
        emit(&mut lines, false, t.as_slice());
        assert(start + Seq::new((i + 1) as nat, |k: int| out(tier_text(o.tiers@[k]))) =~= (start
            + Seq::new(i as nat, |k: int| out(tier_text(o.tiers@[k])))).push(
            out(tier_text(o.tiers@[i as int])),
        ));
        i = i + 1;
    }
    push_doctor_missing(&mut lines, o, macos);
    push_doctor_verdicts(&mut lines, o);
    lines
}

/// How `senv doctor` reports a uv the project itself specifies, which it
/// never executes (running it to read its version would run a binary the
/// project chose, unconfined): the path it resolved to, or the refusal —
/// each sanitized, since the project chose it.
pub open spec fn configured_uv_spec(located: crate::error::Result<String>) -> Seq<char> {
    match located {
        Ok(p) => sanitize_seq(p@) + " (configured; not executed here)"@,
        Err(e) => "REFUSED \u{2014} "@ + sanitize_seq(e.message_spec()),
    }
}

/// [`configured_uv_spec`], as text.
pub fn configured_uv_report(located: &crate::error::Result<String>) -> (r: String)
    ensures
        r@ == configured_uv_spec(*located),
{
    match located {
        Ok(p) => {
            let mut t = chars_of(sanitize(p.as_str()).as_str());
            extend_str(&mut t, " (configured; not executed here)");
            string_of(t.as_slice())
        },
        Err(e) => {
            let mut t = chars_of("REFUSED \u{2014} ");
            extend_str(&mut t, sanitize(e.message().as_str()).as_str());
            string_of(t.as_slice())
        },
    }
}

/// A tier the engine reports, as `senv doctor` lists it: usable when it can
/// be satisfied and, where the engine tried, run. The `workspace` tier is
/// not listed.
pub fn tier_status(claim: &str, satisfiable: bool, runnable: Option<bool>, note: Option<String>) -> (r: Option<TierStatus>)
    ensures
        claim@ == "workspace"@ ==> r is None,
        claim@ != "workspace"@ ==> (r matches Some(t) && t.tier@ == claim@ && t.available == (
        satisfiable && match runnable {
            Some(b) => b,
            None => true,
        }) && crate::text::opt_str(t.note) == crate::text::opt_str(note)),
{
    if str_eq(claim, "workspace") {
        return None;
    }
    let available = satisfiable && match runnable {
        Some(b) => b,
        None => true,
    };
    Some(TierStatus { tier: String::from_str(claim), available, note })
}

/// `senv doctor`'s verdict on a phase of this project that can run here:
/// the tier it gets and its network.
pub fn runnable_verdict(
    phase: crate::policy::Phase,
    tier: crate::config::IsolationClaim,
    profile: &PhaseProfile,
    macos: bool,
) -> (v: PhaseVerdict)
    ensures
        v.phase@ == phase.name(),
        v.ok,
        v.detail@ == tier.name() + " tier, network "@ + describe_net_spec(*profile, macos),
{
    let mut d = chars_of(tier.as_str());
    extend_str(&mut d, " tier, network ");
    extend_str(&mut d, describe_net(profile, macos).as_str());
    PhaseVerdict { phase: String::from_str(phase.as_str()), ok: true, detail: string_of(d.as_slice()) }
}

/// `senv doctor`'s verdict on a phase this host cannot run: why.
pub fn refused_verdict(phase: crate::policy::Phase, refusal: &crate::error::SenvError) -> (v: PhaseVerdict)
    ensures
        v.phase@ == phase.name(),
        !v.ok,
        v.detail@ == refusal.message_spec(),
{
    PhaseVerdict { phase: String::from_str(phase.as_str()), ok: false, detail: refusal.message() }
}

/// `senv doctor`'s exit code: 0 when every phase of this project can run
/// here, 1 otherwise.
pub fn doctor_exit_code(o: &DoctorOutput) -> (r: i32)
    ensures
        r == (if forall|i: int| 0 <= i < o.verdicts.len() ==> (#[trigger] o.verdicts@[i]).ok {
            0i32
        } else {
            1i32
        }),
{
    let mut i: usize = 0;
    while i < o.verdicts.len()
        invariant
            i <= o.verdicts.len(),
            forall|k: int| 0 <= k < i ==> (#[trigger] o.verdicts@[k]).ok,
        decreases o.verdicts.len() - i,
    {
        if !o.verdicts[i].ok {
            return 1;
        }
        i = i + 1;
    }
    0
}

/// What `senv gc` found and removed.
#[derive(Debug, Clone)]
pub struct GcOutput {
    pub scanned: usize,
    pub removable: Vec<GcEntry>,
    pub removed: Vec<String>,
    pub freed: String,
    pub pruned: bool,
}

/// One state directory (or cache) `senv gc` would remove.
#[derive(Debug, Clone)]
pub struct GcEntry {
    /// The state directory's name.
    pub key: String,
    pub path: String,
    pub project: String,
    pub size: String,
    pub reason: String,
}

pub open spec fn gc_entry_text(e: GcEntry) -> Seq<char> {
    "  "@ + e.size@ + "  "@ + e.path@ + "  \u{2014} "@ + e.reason@
}

/// `senv gc` in its human form: how much was scanned, each removable
/// directory and why, and what was (or would be) removed.
pub open spec fn render_gc_spec(o: GcOutput) -> Seq<(bool, Seq<char>)> {
    seq![
        out(
            "scanned "@ + decimal(o.scanned as nat) + " project state director"@ + if o.scanned
                == 1 {
                "y"@
            } else {
                "ies"@
            },
        ),
    ] + if o.removable.len() == 0 {
        seq![out("nothing to remove"@)]
    } else {
        Seq::new(o.removable@.len(), |i: int| out(gc_entry_text(o.removable@[i]))) + if o.pruned {
            seq![
                out(
                    "removed "@ + decimal(o.removed.len() as nat) + " item(s), freed "@
                        + o.freed@,
                ),
            ]
        } else {
            seq![out("\nnothing was deleted. Re-run with --prune to remove them."@)]
        }
    }
}

/// `senv gc` in its human form.
pub fn render_gc(o: &GcOutput) -> (r: Vec<Line>)
    ensures
        lines_view(r@) == render_gc_spec(*o),
{
    let mut lines: Vec<Line> = Vec::new();
    let mut h = chars_of("scanned ");
    extend_chars(&mut h, decimal_chars(o.scanned as u64).as_slice());
    extend_str(&mut h, " project state director");
    if o.scanned == 1 {
        extend_str(&mut h, "y");
    } else {
        extend_str(&mut h, "ies");
    }
    emit(&mut lines, false, h.as_slice());
    let ghost start = lines_view(lines@);
    if o.removable.len() == 0 {
        emit(&mut lines, false, chars_of("nothing to remove").as_slice());
    } else {
        let mut i: usize = 0;
        while i < o.removable.len()
            invariant
                i <= o.removable.len(),
                lines_view(lines@) == start + Seq::new(
                    i as nat,
                    |k: int| out(gc_entry_text(o.removable@[k])),
                ),
            decreases o.removable.len() - i,
        {
            let e = &o.removable[i];
            let mut t = chars_of("  ");
            extend_str(&mut t, e.size.as_str());
            extend_str(&mut t, "  ");
            extend_str(&mut t, e.path.as_str());
            extend_str(&mut t, "  \u{2014} ");
            extend_str(&mut t, e.reason.as_str());
            emit(&mut lines, false, t.as_slice());
            assert(start + Seq::new((i + 1) as nat, |k: int| out(gc_entry_text(o.removable@[k])))
                =~= (start + Seq::new(i as nat, |k: int| out(gc_entry_text(o.removable@[k])))).push(
                out(gc_entry_text(o.removable@[i as int])),
            ));
            i = i + 1;
        }
        if o.pruned {
            let mut t = chars_of("removed ");
            extend_chars(&mut t, decimal_chars(o.removed.len() as u64).as_slice());
            extend_str(&mut t, " item(s), freed ");
            extend_str(&mut t, o.freed.as_str());
            emit(&mut lines, false, t.as_slice());
        } else {
            emit(
                &mut lines,
                false,
                chars_of("\nnothing was deleted. Re-run with --prune to remove them.").as_slice(),
            );
        }
    }
    assert(lines_view(lines@) =~= render_gc_spec(*o));
    lines
}

} // verus!
