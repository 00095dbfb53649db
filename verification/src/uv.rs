//! Driving `uv`, and the staging that keeps dependency resolution away from
//! the source tree.
//!
//! senv never resolves, locks or installs itself: uv does, and a senv
//! project stays a valid uv project. What is decided here is *where* uv may
//! run: which binary counts as uv, whether a project's manifests can be
//! resolved in a staging copy, and what a staged resolution may change.

use vstd::prelude::*;
use crate::config::join_strings;
use crate::text::{chars_of, extend_chars, extend_str, string_of, strs};
use crate::policy::{dedup_keep_first, first_occurrences, lemma_first_occurrences_unique};
use crate::text::{opt_str, opt_str_eq, str_eq};
use crate::toml_value::{
    TomlTree, TomlValue, entries_of, entries_view, get_in, items_view, keys_of, lookup, lookup_in,
    opt_get, opt_value_eq, parse_document, strings_in, toml_document, toml_error, tree_get, tree_ref,
    value_eq, without, entries_eq, entry_eq, opt_tree_eq, lemma_entries_of_eq, lemma_lookup_eq,
};
use crate::error::{Result, SenvError};
use crate::paths::{path_starts_with, path_under};
use crate::project::Project;
use crate::text::{Sep, path_join, path_join_seq, split_at_sep, split_seq};
use crate::util::{
    all_inert, expand_tilde_in, expand_tilde_seq, join_seq, lemma_all_inert_concat,
    lemma_inert_concat, lemma_sanitize_inert, sanitize, sanitize_seq,
};

verus! {

// ── staging ─────────────────────────────────────────────────────────────────

/// Whether a project's manifests can be resolved away from the source tree.
#[derive(Debug)]
pub enum Staging {
    /// Resolution runs in a staging copy; the project stays untouched.
    Possible,
    /// Resolution needs the real project directory, for the stated reason.
    Impossible(String),
}

impl Staging {
    pub open spec fn reason_view(&self) -> Option<Seq<char>> {
        match self {
            Staging::Impossible(r) => Some(r@),
            Staging::Possible => None,
        }
    }

    /// Why resolution cannot be staged, when it cannot.
    pub fn reason(&self) -> (r: Option<&str>)
        ensures
            match r {
                Some(s) => self.reason_view() == Some(s@),
                None => self.reason_view() is None,
            },
    {
        match self {
            Staging::Impossible(r) => Some(r.as_str()),
            Staging::Possible => None,
        }
    }

    pub fn is_possible(&self) -> (b: bool)
        ensures
            b == (self.reason_view() is None),
    {
        match self {
            Staging::Possible => true,
            Staging::Impossible(_) => false,
        }
    }
}

pub open spec fn unparseable_reason() -> Seq<char> {
    "pyproject.toml could not be parsed"@
}

pub open spec fn no_project_reason() -> Seq<char> {
    "pyproject.toml declares no [project] table, so uv needs the real directory"@
}

pub open spec fn workspace_reason() -> Seq<char> {
    "[tool.uv.workspace] \u{2014} workspace members live outside the manifest"@
}

pub open spec fn dynamic_reason(fields: Seq<Seq<char>>) -> Seq<char> {
    "[project] dynamic = ["@ + join_seq(fields, ", "@)
        + "] \u{2014} the build backend must run against your source to produce that metadata"@
}

pub open spec fn local_source_reason(name: Seq<char>) -> Seq<char> {
    "[tool.uv.sources] '"@ + sanitize_seq(name) + "' is a local path dependency"@
}

/// A `[tool.uv.sources]` entry that points at the local tree: a `path`, or
/// `workspace = true`.
pub open spec fn is_local_source(spec: TomlTree) -> bool {
    tree_get(spec, "path"@) is Some || tree_get(spec, "workspace"@) == Some(TomlTree::Bool(true))
}

/// The name of the first local source, in table order.
pub open spec fn first_local(es: Seq<(Seq<char>, TomlTree)>) -> Option<Seq<char>>
    decreases es.len(),
{
    if es.len() == 0 {
        None
    } else if is_local_source(es[0].1) {
        Some(es[0].0)
    } else {
        first_local(es.drop_first())
    }
}

/// The items of `[project] dynamic`, when it is a non-empty array.
pub open spec fn dynamic_items(project: Option<TomlTree>) -> Option<Seq<TomlTree>> {
    match opt_get(project, "dynamic"@) {
        Some(TomlTree::Array(items)) => if items.len() > 0 {
            Some(items)
        } else {
            None
        },
        _ => None,
    }
}

/// Why a manifest cannot be staged (`None`: it can), from the parsed
/// document (`None`: it did not parse).
pub open spec fn staging_reason(doc: Option<TomlTree>) -> Option<Seq<char>> {
    match doc {
        None => Some(unparseable_reason()),
        Some(t) => {
            let project = tree_get(t, "project"@);
            let uv = opt_get(tree_get(t, "tool"@), "uv"@);
            if project is None && uv is None {
                Some(no_project_reason())
            } else if dynamic_items(project) is Some {
                Some(dynamic_reason(strings_in(dynamic_items(project)->0)))
            } else if opt_get(uv, "workspace"@) is Some {
                Some(workspace_reason())
            } else {
                match first_local(entries_of(opt_get(uv, "sources"@))) {
                    Some(name) => Some(local_source_reason(name)),
                    None => None,
                }
            }
        },
    }
}

/// The strings among an array's items (`filter_map(as_str)`).
fn strings_of(items: &[TomlValue]) -> (r: Vec<String>)
    ensures
        strs(r@) == strings_in(items_view(items@)),
{
    let ghost all = items_view(items@);
    let mut out: Vec<String> = Vec::new();
    let mut i: usize = 0;
    while i < items.len()
        invariant
            i <= items@.len(),
            all == items_view(items@),
            strs(out@) == strings_in(all.take(i as int)),
        decreases items.len() - i,
    {
        assert(all.take(i + 1).drop_last() =~= all.take(i as int));
        match &items[i] {
            TomlValue::Str(s) => {
                out.push(s.clone());
                assert(strs(out@) =~= strs(out@.drop_last()).push(s@));
            },
            _ => {},
        }
        i = i + 1;
    }
    assert(all.take(items@.len() as int) =~= all);
    out
}

fn is_local(spec: &TomlValue) -> (b: bool)
    ensures
        b == is_local_source(spec.tree()),
{
    if spec.get("path").is_some() {
        return true;
    }
    match spec.get("workspace") {
        Some(TomlValue::Bool(true)) => true,
        Some(v) => {
            assert(v.tree() != TomlTree::Bool(true));
            false
        },
        None => false,
    }
}

/// The name of the first local source among a table's entries.
fn first_local_in(es: &[(String, TomlValue)]) -> (r: Option<&String>)
    ensures
        match r {
            Some(n) => first_local(entries_view(es@)) == Some(n@),
            None => first_local(entries_view(es@)) is None,
        },
{
    let ghost all = entries_view(es@);
    assert(all.skip(0) =~= all);
    let mut i: usize = 0;
    while i < es.len()
        invariant
            i <= es@.len(),
            all == entries_view(es@),
            first_local(all) == first_local(all.skip(i as int)),
        decreases es.len() - i,
    {
        if is_local(&es[i].1) {
            return Some(&es[i].0);
        }
        assert(all.skip(i as int).drop_first() =~= all.skip(i + 1));
        i = i + 1;
    }
    None
}

/// Decide from a parsed `pyproject.toml` (`None`: it did not parse) whether
/// resolution can run in a staging copy.
pub fn staging_of(doc: Option<&TomlValue>) -> (s: Staging)
    ensures
        s.reason_view() == staging_reason(tree_ref(doc)),
{
    let t = match doc {
        None => return Staging::Impossible(String::from_str("pyproject.toml could not be parsed")),
        Some(t) => t,
    };
    let project = t.get("project");
    let uv = get_in(t.get("tool"), "uv");
    if project.is_none() && uv.is_none() {
        return Staging::Impossible(
            String::from_str(
                "pyproject.toml declares no [project] table, so uv needs the real directory",
            ),
        );
    }
    match get_in(project, "dynamic") {
        Some(TomlValue::Array(items)) => {
            proof {
                TomlValue::lemma_array_tree(*items);
            }
            if items.len() > 0 {
                let fields = strings_of(items.as_slice());
                let mut out = chars_of("[project] dynamic = [");
                let joined = join_strings(fields.as_slice(), ", ");
                extend_chars(&mut out, joined.as_slice());
                extend_str(
                    &mut out,
                    "] \u{2014} the build backend must run against your source to produce that metadata",
                );
                return Staging::Impossible(string_of(out.as_slice()));
            }
        },
        _ => {},
    }
    if get_in(uv, "workspace").is_some() {
        return Staging::Impossible(
            String::from_str("[tool.uv.workspace] \u{2014} workspace members live outside the manifest"),
        );
    }
    let sources = crate::toml_value::entries_in(get_in(uv, "sources"));
    match first_local_in(sources) {
        Some(name) => {
            let mut out = chars_of("[tool.uv.sources] '");
            let clean = sanitize(name.as_str());
            extend_str(&mut out, clean.as_str());
            extend_str(&mut out, "' is a local path dependency");
            Staging::Impossible(string_of(out.as_slice()))
        },
        None => Staging::Possible,
    }
}

/// Decide from the text of `pyproject.toml` whether resolution can run in a
/// staging copy. A manifest that does not parse cannot: uv is left to report
/// that, with the real project in front of it.
pub fn staging_for(pyproject: &str) -> (s: Staging)
    ensures
        s.reason_view() == staging_reason(toml_document(pyproject@)),
{
    let parsed = parse_document(pyproject);
    match &parsed {
        Ok(v) => staging_of(Some(v)),
        Err(_) => staging_of(None),
    }
}

// ── what a staged resolution changed ────────────────────────────────────────

/// The entries of `all` at the positions `idx`, in that order.
pub open spec fn picked(
    all: Seq<(Seq<char>, TomlTree)>,
    idx: Seq<usize>,
) -> Seq<(Seq<char>, TomlTree)> {
    Seq::new(idx.len(), |t: int| all[idx[t] as int])
}

/// The keys of two tables, the first table's first, each once.
pub open spec fn key_union(
    a: Seq<(Seq<char>, TomlTree)>,
    b: Seq<(Seq<char>, TomlTree)>,
) -> Seq<Seq<char>> {
    first_occurrences(keys_of(a) + keys_of(b))
}

/// `[project]` keys that changed and are not dependency lists, in the order
/// of `keys`.
pub open spec fn project_findings(
    a: Seq<(Seq<char>, TomlTree)>,
    b: Seq<(Seq<char>, TomlTree)>,
    keys: Seq<Seq<char>>,
) -> Seq<Seq<char>>
    decreases keys.len(),
{
    if keys.len() == 0 {
        seq![]
    } else {
        let k = keys.last();
        let rest = project_findings(a, b, keys.drop_last());
        if opt_tree_eq(lookup(a, k), lookup(b, k)) || k == "dependencies"@ || k == "optional-dependencies"@ {
            rest
        } else {
            rest.push("[project] "@ + sanitize_seq(k))
        }
    }
}

/// What a change under the top-level key `k` is reported as: `[project]`
/// narrowed to its keys, `[dependency-groups]` never, `[tool]` split into
/// uv's table (sources aside) and the rest, any other key by name.
pub open spec fn key_findings(a: TomlTree, b: TomlTree, k: Seq<char>) -> Seq<Seq<char>> {
    let av = tree_get(a, k);
    let bv = tree_get(b, k);
    if opt_tree_eq(av, bv) {
        seq![]
    } else if k == "project"@ {
        let ea = entries_of(av);
        let eb = entries_of(bv);
        project_findings(ea, eb, key_union(ea, eb))
    } else if k == "dependency-groups"@ {
        seq![]
    } else if k == "tool"@ {
        (if !entries_eq(
            without(entries_of(opt_get(av, "uv"@)), "sources"@),
            without(entries_of(opt_get(bv, "uv"@)), "sources"@),
        ) {
            seq!["[tool.uv]"@]
        } else {
            seq![]
        }) + (if !entries_eq(without(entries_of(av), "uv"@), without(entries_of(bv), "uv"@)) {
            seq!["[tool] (a section other than uv)"@]
        } else {
            seq![]
        })
    } else {
        seq!["["@ + sanitize_seq(k) + "]"@]
    }
}

pub open spec fn changes_over(a: TomlTree, b: TomlTree, keys: Seq<Seq<char>>) -> Seq<Seq<char>>
    decreases keys.len(),
{
    if keys.len() == 0 {
        seq![]
    } else {
        changes_over(a, b, keys.drop_last()) + key_findings(a, b, keys.last())
    }
}

/// The unexpected changes between two parsed manifests, key by key over
/// both documents' top-level keys.
pub open spec fn manifest_changes_spec(a: TomlTree, b: TomlTree) -> Seq<Seq<char>> {
    changes_over(a, b, key_union(entries_of(Some(a)), entries_of(Some(b))))
}

/// [`manifest_changes_spec`] on two texts; nothing when either does not
/// parse.
pub open spec fn unexpected_spec(before: Option<TomlTree>, after: Option<TomlTree>) -> Seq<Seq<char>> {
    match (before, after) {
        (Some(a), Some(b)) => manifest_changes_spec(a, b),
        _ => seq![],
    }
}

fn keys_union(ea: &[(String, TomlValue)], eb: &[(String, TomlValue)]) -> (r: Vec<String>)
    ensures
        strs(r@) == key_union(entries_view(ea@), entries_view(eb@)),
{
    let ghost ka = keys_of(entries_view(ea@));
    let ghost kb = keys_of(entries_view(eb@));
    let mut all: Vec<String> = Vec::new();
    let mut i: usize = 0;
    while i < ea.len()
        invariant
            i <= ea@.len(),
            ka == keys_of(entries_view(ea@)),
            strs(all@) == ka.take(i as int),
        decreases ea.len() - i,
    {
        let ghost before = all@;
        all.push(ea[i].0.clone());
        assert(ka[i as int] == ea@[i as int].0@);
        assert(strs(all@) =~= strs(before).push(ka[i as int]));
        assert(ka.take(i + 1) =~= ka.take(i as int).push(ka[i as int]));
        i = i + 1;
    }
    let mut j: usize = 0;
    while j < eb.len()
        invariant
            j <= eb@.len(),
            kb == keys_of(entries_view(eb@)),
            strs(all@) == ka + kb.take(j as int),
            ka.len() == ea@.len(),
        decreases eb.len() - j,
    {
        let ghost before = all@;
        all.push(eb[j].0.clone());
        assert(kb[j as int] == eb@[j as int].0@);
        assert(strs(all@) =~= strs(before).push(kb[j as int]));
        assert(kb.take(j + 1) =~= kb.take(j as int).push(kb[j as int]));
        j = j + 1;
    }
    assert(ka.take(ea@.len() as int) =~= ka);
    assert(kb.take(eb@.len() as int) =~= kb);
    dedup_keep_first(&all)
}

/// The positions of the entries whose key is not `key`.
fn kept(es: &[(String, TomlValue)], key: &str) -> (r: Vec<usize>)
    ensures
        forall|t: int| 0 <= t < r@.len() ==> r@[t] < es@.len(),
        picked(entries_view(es@), r@) == without(entries_view(es@), key@),
{
    let ghost all = entries_view(es@);
    let mut out: Vec<usize> = Vec::new();
    let mut i: usize = 0;
    while i < es.len()
        invariant
            i <= es@.len(),
            all == entries_view(es@),
            forall|t: int| 0 <= t < out@.len() ==> out@[t] < i,
            picked(all, out@) == without(all.take(i as int), key@),
        decreases es.len() - i,
    {
        assert(all.take(i + 1).drop_last() =~= all.take(i as int));
        assert(all.take(i + 1).last() == all[i as int]);
        if !str_eq(es[i].0.as_str(), key) {
            out.push(i);
            assert(picked(all, out@) =~= picked(all, out@.drop_last()).push(all[i as int]));
        }
        i = i + 1;
    }
    assert(all.take(es@.len() as int) =~= all);
    out
}

/// The two tables agree once the entries under `key` are set aside.
fn same_without(ea: &[(String, TomlValue)], eb: &[(String, TomlValue)], key: &str) -> (b: bool)
    ensures
        b == entries_eq(without(entries_view(ea@), key@), without(entries_view(eb@), key@)),
{
    let ka = kept(ea, key);
    let kb = kept(eb, key);
    let ghost pa = picked(entries_view(ea@), ka@);
    let ghost pb = picked(entries_view(eb@), kb@);
    if ka.len() != kb.len() {
        assert(pa.len() != pb.len());
        assert(!entries_eq(pa, pb));
        return false;
    }
    let mut t: usize = 0;
    while t < ka.len()
        invariant
            t <= ka@.len(),
            ka@.len() == kb@.len(),
            pa == picked(entries_view(ea@), ka@),
            pb == picked(entries_view(eb@), kb@),
            pa == without(entries_view(ea@), key@),
            pb == without(entries_view(eb@), key@),
            forall|s: int| 0 <= s < ka@.len() ==> ka@[s] < ea@.len(),
            forall|s: int| 0 <= s < kb@.len() ==> kb@[s] < eb@.len(),
            forall|s: int| 0 <= s < t ==> #[trigger] entry_eq(pa[s], pb[s]),
        decreases ka.len() - t,
    {
        let x = &ea[ka[t]];
        let y = &eb[kb[t]];
        if !str_eq(x.0.as_str(), y.0.as_str()) || !value_eq(&x.1, &y.1) {
            assert(!entry_eq(pa[t as int], pb[t as int]));
            proof {
                crate::toml_value::lemma_entries_eq_upto(pa, pb, pa.len() as int);
            }
            return false;
        }
        assert(entry_eq(pa[t as int], pb[t as int]));
        t = t + 1;
    }
    proof {
        crate::toml_value::lemma_entries_eq_upto(pa, pb, pa.len() as int);
    }
    true
}

/// `[project] <key>` for each changed key of `[project]` that is not a
/// dependency list.
fn project_changes(ea: &[(String, TomlValue)], eb: &[(String, TomlValue)]) -> (r: Vec<String>)
    ensures
        strs(r@) == project_findings(
            entries_view(ea@),
            entries_view(eb@),
            key_union(entries_view(ea@), entries_view(eb@)),
        ),
{
    let keys = keys_union(ea, eb);
    let ghost a = entries_view(ea@);
    let ghost b = entries_view(eb@);
    let mut out: Vec<String> = Vec::new();
    let mut i: usize = 0;
    while i < keys.len()
        invariant
            i <= keys@.len(),
            a == entries_view(ea@),
            b == entries_view(eb@),
            strs(out@) == project_findings(a, b, strs(keys@).take(i as int)),
        decreases keys.len() - i,
    {
        let k = keys[i].as_str();
        assert(strs(keys@).take(i + 1).drop_last() =~= strs(keys@).take(i as int));
        assert(strs(keys@).take(i + 1).last() == k@);
        let same = opt_value_eq(lookup_in(ea, k), lookup_in(eb, k));
        if !(same || str_eq(k, "dependencies") || str_eq(k, "optional-dependencies")) {
            let mut line = chars_of("[project] ");
            let clean = sanitize(k);
            extend_str(&mut line, clean.as_str());
            out.push(string_of(line.as_slice()));
            assert(strs(out@) =~= strs(out@.drop_last()).push("[project] "@ + sanitize_seq(k@)));
        }
        i = i + 1;
    }
    assert(strs(keys@).take(keys@.len() as int) =~= strs(keys@));
    out
}

/// Appends what a change under the top-level key `k` is reported as.
fn key_changes(a: &TomlValue, b: &TomlValue, k: &str, out: &mut Vec<String>)
    ensures
        strs(final(out)@) == strs(old(out)@) + key_findings(a.tree(), b.tree(), k@),
{
    let av = a.get(k);
    let bv = b.get(k);
    if opt_value_eq(av, bv) {
        assert(strs(out@) =~= strs(out@) + seq![]);
        return;
    }
    if str_eq(k, "project") {
        let found = project_changes(crate::toml_value::entries_in(av), crate::toml_value::entries_in(bv));
        let mut i: usize = 0;
        let ghost start = strs(out@);
        while i < found.len()
            invariant
                i <= found@.len(),
                strs(out@) == start + strs(found@).take(i as int),
            decreases found.len() - i,
        {
            let ghost before = out@;
            out.push(found[i].clone());
            assert(strs(out@) =~= strs(before).push(found@[i as int]@));
            assert(strs(found@).take(i + 1) =~= strs(found@).take(i as int).push(found@[i as int]@));
            assert(strs(out@) =~= start + strs(found@).take(i + 1));
            i = i + 1;
        }
        assert(strs(found@).take(found@.len() as int) =~= strs(found@));
        return;
    }
    if str_eq(k, "dependency-groups") {
        assert(strs(out@) =~= strs(out@) + seq![]);
        return;
    }
    if str_eq(k, "tool") {
        let ghost start = strs(out@);
        let uv_a = crate::toml_value::entries_in(get_in(av, "uv"));
        let uv_b = crate::toml_value::entries_in(get_in(bv, "uv"));
        let uv_same = same_without(uv_a, uv_b, "sources");
        if !uv_same {
            out.push(String::from_str("[tool.uv]"));
        }
        let ghost mid = strs(out@);
        let rest_same = same_without(
            crate::toml_value::entries_in(av),
            crate::toml_value::entries_in(bv),
            "uv",
        );
        if !rest_same {
            out.push(String::from_str("[tool] (a section other than uv)"));
        }
        assert(strs(out@) =~= start + key_findings(a.tree(), b.tree(), k@));
        return;
    }
    let mut line = chars_of("[");
    let clean = sanitize(k);
    extend_str(&mut line, clean.as_str());
    extend_str(&mut line, "]");
    let ghost start = strs(out@);
    out.push(string_of(line.as_slice()));
    assert(strs(out@) =~= start + seq!["["@ + sanitize_seq(k@) + "]"@]);
}

/// The changes between two parsed manifests that `add` or `remove` should
/// not have made: anything outside the dependency lists and uv's source
/// table.
pub fn manifest_changes(a: &TomlValue, b: &TomlValue) -> (r: Vec<String>)
    ensures
        strs(r@) == manifest_changes_spec(a.tree(), b.tree()),
{
    let ea = crate::toml_value::entries_in(Some(a));
    let eb = crate::toml_value::entries_in(Some(b));
    let keys = keys_union(ea, eb);
    let mut out: Vec<String> = Vec::new();
    let mut i: usize = 0;
    while i < keys.len()
        invariant
            i <= keys@.len(),
            strs(keys@) == key_union(entries_of(Some(a.tree())), entries_of(Some(b.tree()))),
            strs(out@) == changes_over(a.tree(), b.tree(), strs(keys@).take(i as int)),
        decreases keys.len() - i,
    {
        assert(strs(keys@).take(i + 1).drop_last() =~= strs(keys@).take(i as int));
        assert(strs(keys@).take(i + 1).last() == keys@[i as int]@);
        key_changes(a, b, keys[i].as_str(), &mut out);
        i = i + 1;
    }
    assert(strs(keys@).take(keys@.len() as int) =~= strs(keys@));
    out
}

/// Top-level `pyproject.toml` keys that changed between two texts but
/// should not have; nothing when either text does not parse.
pub fn unexpected_manifest_changes(before: &str, after: &str) -> (r: Vec<String>)
    ensures
        strs(r@) == unexpected_spec(toml_document(before@), toml_document(after@)),
{
    let a = parse_document(before);
    let b = parse_document(after);
    match (&a, &b) {
        (Ok(x), Ok(y)) => manifest_changes(x, y),
        _ => {
            let empty: Vec<String> = Vec::new();
            assert(strs(empty@) =~= seq![]);
            empty
        },
    }
}

// ── which uv ────────────────────────────────────────────────────────────────

/// Is the uv binary one the *project* chose (`[env] uv`), rather than one
/// senv found? A configured path is untrusted input: `senv.toml` lies inside
/// the sandbox's write grant, so such a uv is only ever run confined.
pub fn is_project_specified(project: &Project) -> (b: bool)
    ensures
        b == (project.config.env.uv is Some),
{
    project.config.env.uv.is_some()
}

/// The standard places uv is installed in, tried after `PATH`.
pub open spec fn uv_fallbacks() -> Seq<Seq<char>> {
    seq!["~/.local/bin/uv"@, "~/.cargo/bin/uv"@, "/usr/local/bin/uv"@, "/opt/homebrew/bin/uv"@]
}

pub open spec fn opt_seq(o: Option<&str>) -> Option<Seq<char>> {
    match o {
        Some(s) => Some(s@),
        None => None,
    }
}

pub open spec fn one_if(o: Option<Seq<char>>) -> Seq<Seq<char>> {
    match o {
        Some(s) => seq![s],
        None => seq![],
    }
}

/// `uv` under each directory of a `PATH` value, in order.
pub open spec fn path_candidates(path_var: Option<Seq<char>>) -> Seq<Seq<char>> {
    match path_var {
        Some(p) => split_seq(p, Sep::Char(':')).map_values(|d: Seq<char>| path_join_seq(d, "uv"@)),
        None => seq![],
    }
}

/// Where senv looks for uv, in order: the configured path (tilde
/// expanded), `$SENV_UV`, each `PATH` directory, then the standard places.
pub open spec fn uv_candidates_spec(
    configured: Option<Seq<char>>,
    senv_uv: Option<Seq<char>>,
    path_var: Option<Seq<char>>,
    home: Option<Seq<char>>,
) -> Seq<Seq<char>> {
    one_if(
        match configured {
            Some(c) => Some(expand_tilde_seq(c, home)),
            None => None,
        },
    ) + one_if(senv_uv) + path_candidates(path_var) + uv_fallbacks().map_values(
        |f: Seq<char>| expand_tilde_seq(f, home),
    )
}

/// The paths senv tries for uv, in the order it tries them; the first that
/// is an executable file wins.
pub fn uv_candidates(
    configured: Option<&str>,
    senv_uv: Option<&str>,
    path_var: Option<&str>,
    home: Option<&str>,
) -> (r: Vec<String>)
    ensures
        strs(r@) == uv_candidates_spec(
            opt_seq(configured),
            opt_seq(senv_uv),
            opt_seq(path_var),
            opt_seq(home),
        ),
{
    let ghost h = opt_seq(home);
    let mut out: Vec<String> = Vec::new();
    if let Some(c) = configured {
        out.push(expand_tilde_in(c, home));
    }
    assert(strs(out@) =~= one_if(
        match opt_seq(configured) {
            Some(c) => Some(expand_tilde_seq(c, h)),
            None => None,
        },
    ));
    let ghost first = strs(out@);
    if let Some(s) = senv_uv {
        out.push(String::from_str(s));
    }
    assert(strs(out@) =~= first + one_if(opt_seq(senv_uv)));
    let ghost second = strs(out@);
    if let Some(p) = path_var {
        let pv = chars_of(p);
        let dirs = split_at_sep(pv.as_slice(), Sep::Char(':'));
        let ghost ds = split_seq(p@, Sep::Char(':'));
        let mut i: usize = 0;
        while i < dirs.len()
            invariant
                i <= dirs@.len(),
                dirs@.len() == ds.len(),
                forall|k: int| 0 <= k < ds.len() ==> dirs@[k]@ == ds[k],
                ds == split_seq(p@, Sep::Char(':')),
                strs(out@) == second + ds.take(i as int).map_values(
                    |d: Seq<char>| path_join_seq(d, "uv"@),
                ),
            decreases dirs.len() - i,
        {
            let d = string_of(dirs[i].as_slice());
            let ghost before = strs(out@);
            out.push(path_join(d.as_str(), "uv"));
            assert(ds.take(i + 1).map_values(|d: Seq<char>| path_join_seq(d, "uv"@)) =~= ds.take(
                i as int,
            ).map_values(|d: Seq<char>| path_join_seq(d, "uv"@)).push(path_join_seq(ds[i as int], "uv"@)));
            assert(strs(out@) =~= before.push(path_join_seq(ds[i as int], "uv"@)));
            i = i + 1;
        }
        assert(ds.take(dirs@.len() as int) =~= ds);
    }
    assert(strs(out@) =~= second + path_candidates(opt_seq(path_var)));
    let ghost third = strs(out@);
    let fallbacks = ["~/.local/bin/uv", "~/.cargo/bin/uv", "/usr/local/bin/uv", "/opt/homebrew/bin/uv"];
    let mut j: usize = 0;
    while j < 4
        invariant
            j <= 4,
            h == opt_seq(home),
            fallbacks@.len() == 4,
            fallbacks@[0]@ == "~/.local/bin/uv"@,
            fallbacks@[1]@ == "~/.cargo/bin/uv"@,
            fallbacks@[2]@ == "/usr/local/bin/uv"@,
            fallbacks@[3]@ == "/opt/homebrew/bin/uv"@,
            strs(out@) == third + uv_fallbacks().take(j as int).map_values(
                |f: Seq<char>| expand_tilde_seq(f, h),
            ),
        decreases 4 - j,
    {
        let ghost before = strs(out@);
        out.push(expand_tilde_in(fallbacks[j], home));
        assert(fallbacks@[j as int]@ == uv_fallbacks()[j as int]);
        assert(uv_fallbacks().take(j + 1).map_values(|f: Seq<char>| expand_tilde_seq(f, h))
            =~= uv_fallbacks().take(j as int).map_values(|f: Seq<char>| expand_tilde_seq(f, h)).push(
            expand_tilde_seq(uv_fallbacks()[j as int], h),
        ));
        assert(strs(out@) =~= before.push(expand_tilde_seq(uv_fallbacks()[j as int], h)));
        j = j + 1;
    }
    assert(uv_fallbacks().take(4) =~= uv_fallbacks());
    out
}

pub open spec fn uv_missing_message() -> Seq<char> {
    "uv was not found on PATH. senv drives uv for every package operation, so it is a hard requirement."@
}

/// The error for a machine where none of the candidates is an executable
/// file.
pub fn uv_not_found() -> (e: SenvError)
    ensures
        e matches SenvError::Uv(m) && m@ == uv_missing_message(),
{
    SenvError::Uv(
        String::from_str(
            "uv was not found on PATH. senv drives uv for every package operation, so it is a hard requirement.",
        ),
    )
}

pub open spec fn inside_why(path: Seq<char>) -> Seq<char> {
    path
        + " is writable by code running under senv, so senv will not run it as its own toolchain \u{2014} that would turn one sandboxed execution into an unsandboxed one."@
}

pub open spec fn inside_fix() -> Seq<char> {
    "point [env] uv at an installed uv (for example ~/.local/bin/uv), or remove the key and let senv find it on PATH"@
}

pub open spec fn inside_what(label: Seq<char>) -> Seq<char> {
    "[env] uv points inside your "@ + label + " directory"@
}

/// The refusal of a configured uv that lies inside a directory the sandbox
/// can write.
pub open spec fn is_inside_refusal(e: SenvError, label: Seq<char>, path: Seq<char>) -> bool {
    e matches SenvError::Refused { what, why, fix } && what@ == inside_what(label) && why@
        == inside_why(path) && fix@ == inside_fix()
}

fn inside_refusal(label: &str, path: &str) -> (e: SenvError)
    ensures
        is_inside_refusal(e, label@, path@),
{
    let mut what = chars_of("[env] uv points inside your ");
    extend_str(&mut what, label);
    extend_str(&mut what, " directory");
    let mut why = chars_of(path);
    extend_str(
        &mut why,
        " is writable by code running under senv, so senv will not run it as its own toolchain \u{2014} that would turn one sandboxed execution into an unsandboxed one.",
    );
    SenvError::refused(
        string_of(what.as_slice()),
        string_of(why.as_slice()),
        String::from_str(
            "point [env] uv at an installed uv (for example ~/.local/bin/uv), or remove the key and let senv find it on PATH",
        ),
    )
}

/// Accept the uv that was located for a project, or refuse it.
///
/// A configured (`[env] uv`) path is refused when it resolves inside the
/// project or inside senv's state for it, both writable from the sandbox: a
/// package that writes a script there and points the key at it would have
/// senv run that script as its own toolchain. A uv senv found itself is
/// accepted wherever it is.
pub fn find(project: &Project, located: Result<String>) -> (r: Result<String>)
    ensures
        located is Err ==> r == located,
        located matches Ok(p) ==> {
            if project.config.env.uv is Some && path_starts_with(p@, project.root@) {
                r matches Err(e) && is_inside_refusal(e, "project"@, p@)
            } else if project.config.env.uv is Some && path_starts_with(p@, project.state_dir@) {
                r matches Err(e) && is_inside_refusal(e, "senv state"@, p@)
            } else {
                r == located
            }
        },
{
    let path = match located {
        Ok(p) => p,
        Err(e) => return Err(e),
    };
    if project.config.env.uv.is_some() {
        if path_under(path.as_str(), project.root.as_str()) {
            return Err(inside_refusal("project", path.as_str()));
        }
        if path_under(path.as_str(), project.state_dir.as_str()) {
            return Err(inside_refusal("senv state", path.as_str()));
        }
    }
    Ok(path)
}

// ── copying a staged resolution back ────────────────────────────────────────

/// Files copied into a staging directory when the project has them: enough
/// for uv to resolve a project with static metadata, including the readme
/// and licence files metadata may point at, and nothing of the source tree.
pub open spec fn stage_names() -> Seq<Seq<char>> {
    seq![
        "pyproject.toml"@,
        "uv.lock"@,
        ".python-version"@,
        "README.md"@,
        "README.rst"@,
        "README.txt"@,
        "LICENSE"@,
        "LICENSE.txt"@,
        "LICENSE.md"@,
    ]
}

/// [`stage_names`], as values.
pub fn stage_file_names() -> (r: Vec<String>)
    ensures
        strs(r@) == stage_names(),
{
    let r = vec![
        String::from_str("pyproject.toml"),
        String::from_str("uv.lock"),
        String::from_str(".python-version"),
        String::from_str("README.md"),
        String::from_str("README.rst"),
        String::from_str("README.txt"),
        String::from_str("LICENSE"),
        String::from_str("LICENSE.txt"),
        String::from_str("LICENSE.md"),
    ];
    assert(strs(r@) =~= stage_names());
    r
}

/// What copying a staged resolution back changed, and what the user must be
/// told.
pub struct StageResult {
    pub changed: Vec<String>,
    /// A manifest edited when nothing should have edited it, or keys changed
    /// that the requested operation does not touch.
    pub warnings: Vec<String>,
}

impl StageResult {
    pub fn new() -> (r: StageResult)
        ensures
            r.changed@.len() == 0,
            r.warnings@.len() == 0,
    {
        StageResult { changed: Vec::new(), warnings: Vec::new() }
    }
}

/// What to do with the staged `pyproject.toml`.
#[derive(Debug, Clone, Copy, PartialEq, Eq, Structural)]
pub enum ManifestStep {
    /// Resolution left it as it was copied in.
    Unchanged,
    /// It changed during an operation that must not change it (`lock`):
    /// leave the project's copy alone and warn.
    Refuse,
    /// It changed during `add` or `remove`: review it and copy it back.
    CopyBack,
}

/// Decide from the manifest's hash before and after resolution (`None`: the
/// file is not there) what becomes of it. A staged manifest that vanished
/// counts as unchanged: there is nothing to copy back.
pub fn manifest_step(before: &Option<String>, after: &Option<String>, expect_change: bool) -> (s: ManifestStep)
    ensures
        s == (if after is None || opt_str(*after) == opt_str(*before) {
            ManifestStep::Unchanged
        } else if expect_change {
            ManifestStep::CopyBack
        } else {
            ManifestStep::Refuse
        }),
{
    if after.is_none() || opt_str_eq(after, before) {
        ManifestStep::Unchanged
    } else if expect_change {
        ManifestStep::CopyBack
    } else {
        ManifestStep::Refuse
    }
}

/// A prepared staging directory: where it is, and the hashes of the
/// manifests as they were copied in (`None`: not there), so that a change
/// made during resolution is detectable.
pub struct Stage {
    pub dir: String,
    pyproject_before: Option<String>,
    lock_before: Option<String>,
}

impl Stage {
    pub closed spec fn dir_path(&self) -> Seq<char> {
        self.dir@
    }

    pub closed spec fn pyproject_hash(&self) -> Option<Seq<char>> {
        opt_str(self.pyproject_before)
    }

    pub closed spec fn lock_hash(&self) -> Option<Seq<char>> {
        opt_str(self.lock_before)
    }

    pub fn new(dir: String, pyproject_before: Option<String>, lock_before: Option<String>) -> (s: Stage)
        ensures
            s.dir_path() == dir@,
            s.pyproject_hash() == opt_str(pyproject_before),
            s.lock_hash() == opt_str(lock_before),
    {
        Stage { dir, pyproject_before, lock_before }
    }

    /// What becomes of the staged manifest, whose hash is now `after`: as
    /// [`manifest_step`] decides against the hash it was copied in with.
    pub fn manifest_step(&self, after: &Option<String>, expect_change: bool) -> (s: ManifestStep)
        ensures
            s == (if after is None || opt_str(*after) == self.pyproject_hash() {
                ManifestStep::Unchanged
            } else if expect_change {
                ManifestStep::CopyBack
            } else {
                ManifestStep::Refuse
            }),
    {
        manifest_step(&self.pyproject_before, after, expect_change)
    }

    /// Whether the staged lockfile, whose hash is now `after`, differs from
    /// the one copied in.
    pub fn lock_changed(&self, after: &Option<String>) -> (b: bool)
        ensures
            b == (opt_str(*after) != self.lock_hash()),
    {
        !opt_str_eq(after, &self.lock_before)
    }
}

pub open spec fn rewritten_warning_text(staged: Seq<char>) -> Seq<char> {
    "pyproject.toml was modified during resolution, which this operation should not do. senv did NOT copy it back; the staged copy is at "@
        + staged + " if you want to look at it."@
}

/// The warning for a manifest that a plain `lock` rewrote.
pub fn rewritten_warning(staged: &str) -> (r: String)
    ensures
        r@ == rewritten_warning_text(staged@),
{
    let mut out = chars_of(
        "pyproject.toml was modified during resolution, which this operation should not do. senv did NOT copy it back; the staged copy is at ",
    );
    extend_str(&mut out, staged);
    extend_str(&mut out, " if you want to look at it.");
    string_of(out.as_slice())
}

pub open spec fn outside_warning(finding: Seq<char>) -> Seq<char> {
    "pyproject.toml changed outside the dependency lists: "@ + finding
}

/// A staged file that does not parse, refused before it overwrites the
/// project's copy.
pub open spec fn invalid_staged(e: SenvError, path: Seq<char>, what: Seq<char>, text: Seq<char>) -> bool {
    e matches SenvError::Config { path: p, message } && p@ == path && message@ == "staged "@ + what
        + " is invalid: "@ + toml_error(text)
}

fn invalid_error(path: &str, what: &str, message: String) -> (e: SenvError)
    ensures
        e matches SenvError::Config { path: p, message: m } && p@ == path@ && m@ == "staged "@
            + what@ + " is invalid: "@ + message@,
{
    let mut m = chars_of("staged ");
    extend_str(&mut m, what);
    extend_str(&mut m, " is invalid: ");
    extend_str(&mut m, message.as_str());
    SenvError::config(String::from_str(path), string_of(m.as_slice()))
}

/// Review a staged manifest that `add` or `remove` changed, before it is
/// copied over the project's: the warnings for every change outside the
/// dependency lists, or the refusal of a manifest that does not parse
/// (a truncated copy-back would break the project).
pub fn review_manifest(project_text: &str, staged_text: &str, staged_path: &str) -> (r: Result<Vec<String>>)
    ensures
        match r {
            Ok(w) => toml_document(staged_text@) is Some && strs(w@) == unexpected_spec(
                toml_document(project_text@),
                toml_document(staged_text@),
            ).map_values(|f: Seq<char>| outside_warning(f)),
            Err(e) => toml_document(staged_text@) is None && invalid_staged(
                e,
                staged_path@,
                "manifest"@,
                staged_text@,
            ),
        },
{
    let found = unexpected_manifest_changes(project_text, staged_text);
    let mut warnings: Vec<String> = Vec::new();
    let mut i: usize = 0;
    while i < found.len()
        invariant
            i <= found@.len(),
            strs(warnings@) == strs(found@).take(i as int).map_values(
                |f: Seq<char>| outside_warning(f),
            ),
        decreases found.len() - i,
    {
        let mut line = chars_of("pyproject.toml changed outside the dependency lists: ");
        extend_str(&mut line, found[i].as_str());
        let ghost before = strs(warnings@);
        warnings.push(string_of(line.as_slice()));
        assert(strs(found@).take(i + 1).map_values(|f: Seq<char>| outside_warning(f)) =~= strs(
            found@,
        ).take(i as int).map_values(|f: Seq<char>| outside_warning(f)).push(
            outside_warning(found@[i as int]@),
        ));
        assert(strs(warnings@) =~= before.push(outside_warning(found@[i as int]@)));
        i = i + 1;
    }
    assert(strs(found@).take(found@.len() as int) =~= strs(found@));
    match parse_document(staged_text) {
        Ok(_) => Ok(warnings),
        Err(message) => Err(invalid_error(staged_path, "manifest", message)),
    }
}

/// Review a staged lockfile that resolution changed, before it is copied
/// over the project's: refused when it does not parse.
pub fn review_lock(staged_text: &str, staged_path: &str) -> (r: Result<()>)
    ensures
        match r {
            Ok(()) => toml_document(staged_text@) is Some,
            Err(e) => toml_document(staged_text@) is None && invalid_staged(
                e,
                staged_path@,
                "lockfile"@,
                staged_text@,
            ),
        },
{
    match parse_document(staged_text) {
        Ok(_) => Ok(()),
        Err(message) => Err(invalid_error(staged_path, "lockfile", message)),
    }
}

// ── what the review of a staged manifest promises ──────────────────────────

proof fn lemma_changes_silent(a: TomlTree, b: TomlTree, keys: Seq<Seq<char>>)
    requires
        forall|k: Seq<char>| #[trigger] opt_tree_eq(tree_get(a, k), tree_get(b, k)) || k == "dependency-groups"@,
    ensures
        changes_over(a, b, keys) == Seq::<Seq<char>>::empty(),
    decreases keys.len(),
{
    if keys.len() > 0 {
        lemma_changes_silent(a, b, keys.drop_last());
        let k = keys.last();
        if !opt_tree_eq(tree_get(a, k), tree_get(b, k)) {
            assert(k == "dependency-groups"@);
            reveal_strlit("dependency-groups");
            reveal_strlit("project");
            assert(k.len() == 17);
            assert("project"@.len() == 7);
            assert(k != "project"@);
        }
        assert(key_findings(a, b, k) =~= Seq::<Seq<char>>::empty());
        assert(changes_over(a, b, keys) =~= Seq::<Seq<char>>::empty());
    }
}

/// Two manifests that agree on every top-level table, `[dependency-groups]`
/// aside, draw no finding: editing dependency groups is what `add` and
/// `remove` are for. Tables agree as `toml::Value`'s `==` says, so a NaN
/// anywhere in one is a change.
pub proof fn lemma_agreeing_manifests_are_silent(a: TomlTree, b: TomlTree)
    requires
        forall|k: Seq<char>| #[trigger] opt_tree_eq(tree_get(a, k), tree_get(b, k)) || k == "dependency-groups"@,
    ensures
        manifest_changes_spec(a, b) == Seq::<Seq<char>>::empty(),
{
    lemma_changes_silent(a, b, key_union(entries_of(Some(a)), entries_of(Some(b))));
}

proof fn lemma_lookup_key(es: Seq<(Seq<char>, TomlTree)>, k: Seq<char>)
    requires
        lookup(es, k) is Some,
    ensures
        keys_of(es).contains(k),
    decreases es.len(),
{
    if es[0].0 == k {
        assert(keys_of(es)[0] == k);
    } else {
        lemma_lookup_key(es.drop_first(), k);
        let j = choose|j: int| 0 <= j < keys_of(es.drop_first()).len() && keys_of(es.drop_first())[j] == k;
        assert(keys_of(es)[j + 1] == k);
    }
}

/// A key whose values differ between two tables is among their keys.
proof fn lemma_differing_key_listed(ea: Seq<(Seq<char>, TomlTree)>, eb: Seq<(Seq<char>, TomlTree)>, k: Seq<char>)
    requires
        !opt_tree_eq(lookup(ea, k), lookup(eb, k)),
    ensures
        key_union(ea, eb).contains(k),
{
    lemma_first_occurrences_unique(keys_of(ea) + keys_of(eb));
    if lookup(ea, k) is Some {
        lemma_lookup_key(ea, k);
        let j = choose|j: int| 0 <= j < keys_of(ea).len() && keys_of(ea)[j] == k;
        assert((keys_of(ea) + keys_of(eb))[j] == k);
        assert((keys_of(ea) + keys_of(eb)).contains(k));
    } else {
        lemma_lookup_key(eb, k);
        let j = choose|j: int| 0 <= j < keys_of(eb).len() && keys_of(eb)[j] == k;
        assert((keys_of(ea) + keys_of(eb))[keys_of(ea).len() + j] == k);
        assert((keys_of(ea) + keys_of(eb)).contains(k));
    }
}

proof fn lemma_changes_include(a: TomlTree, b: TomlTree, keys: Seq<Seq<char>>, k: Seq<char>, x: Seq<char>)
    requires
        keys.contains(k),
        key_findings(a, b, k).contains(x),
    ensures
        changes_over(a, b, keys).contains(x),
    decreases keys.len(),
{
    let rest = changes_over(a, b, keys.drop_last());
    let last = key_findings(a, b, keys.last());
    assert(changes_over(a, b, keys) == rest + last);
    if keys.last() == k {
        let j = choose|j: int| 0 <= j < last.len() && last[j] == x;
        assert((rest + last)[rest.len() + j] == x);
    } else {
        let i = choose|i: int| 0 <= i < keys.len() && keys[i] == k;
        assert(keys.drop_last()[i] == k);
        lemma_changes_include(a, b, keys.drop_last(), k, x);
        let j = choose|j: int| 0 <= j < rest.len() && rest[j] == x;
        assert((rest + last)[j] == x);
    }
}

proof fn lemma_project_findings_include(
    ea: Seq<(Seq<char>, TomlTree)>,
    eb: Seq<(Seq<char>, TomlTree)>,
    keys: Seq<Seq<char>>,
    k: Seq<char>,
)
    requires
        keys.contains(k),
        !opt_tree_eq(lookup(ea, k), lookup(eb, k)),
        k != "dependencies"@,
        k != "optional-dependencies"@,
    ensures
        project_findings(ea, eb, keys).contains("[project] "@ + sanitize_seq(k)),
    decreases keys.len(),
{
    let rest = project_findings(ea, eb, keys.drop_last());
    if keys.last() == k {
        assert(project_findings(ea, eb, keys) == rest.push("[project] "@ + sanitize_seq(k)));
        assert(project_findings(ea, eb, keys)[rest.len() as int] == "[project] "@ + sanitize_seq(k));
    } else {
        let i = choose|i: int| 0 <= i < keys.len() && keys[i] == k;
        assert(keys.drop_last()[i] == k);
        lemma_project_findings_include(ea, eb, keys.drop_last(), k);
        let j = choose|j: int| 0 <= j < rest.len() && rest[j] == "[project] "@ + sanitize_seq(k);
        let all = project_findings(ea, eb, keys);
        assert(all == rest || all == rest.push("[project] "@ + sanitize_seq(keys.last())));
        assert(all[j] == rest[j]);
    }
}

/// A change to any top-level table other than `[project]`, `[tool]` and
/// `[dependency-groups]` is reported by name: that is where a build backend
/// would rewrite `[build-system]`.
pub proof fn lemma_foreign_table_change_is_reported(a: TomlTree, b: TomlTree, k: Seq<char>)
    requires
        a is Table,
        b is Table,
        !opt_tree_eq(tree_get(a, k), tree_get(b, k)),
        k != "project"@,
        k != "tool"@,
        k != "dependency-groups"@,
    ensures
        manifest_changes_spec(a, b).contains("["@ + sanitize_seq(k) + "]"@),
{
    lemma_differing_key_listed(entries_of(Some(a)), entries_of(Some(b)), k);
    let x = "["@ + sanitize_seq(k) + "]"@;
    assert(key_findings(a, b, k) == seq![x]);
    assert(key_findings(a, b, k)[0] == x);
    lemma_changes_include(a, b, key_union(entries_of(Some(a)), entries_of(Some(b))), k, x);
}

/// A change to a `[project]` key other than the two dependency lists is
/// reported by name: a renamed project or a new entry point is a finding,
/// an added dependency is not.
pub proof fn lemma_project_key_change_is_reported(a: TomlTree, b: TomlTree, k: Seq<char>)
    requires
        a is Table,
        b is Table,
        !opt_tree_eq(
            lookup(entries_of(tree_get(a, "project"@)), k),
            lookup(entries_of(tree_get(b, "project"@)), k),
        ),
        k != "dependencies"@,
        k != "optional-dependencies"@,
    ensures
        manifest_changes_spec(a, b).contains("[project] "@ + sanitize_seq(k)),
{
    let p = "project"@;
    let ea = entries_of(tree_get(a, p));
    let eb = entries_of(tree_get(b, p));
    if opt_tree_eq(tree_get(a, p), tree_get(b, p)) {
        lemma_entries_of_eq(tree_get(a, p), tree_get(b, p));
        lemma_lookup_eq(ea, eb, k);
    }
    lemma_differing_key_listed(entries_of(Some(a)), entries_of(Some(b)), p);
    lemma_differing_key_listed(ea, eb, k);
    lemma_project_findings_include(ea, eb, key_union(ea, eb), k);
    lemma_changes_include(
        a,
        b,
        key_union(entries_of(Some(a)), entries_of(Some(b))),
        p,
        "[project] "@ + sanitize_seq(k),
    );
}

proof fn lemma_project_findings_inert(
    a: Seq<(Seq<char>, TomlTree)>,
    b: Seq<(Seq<char>, TomlTree)>,
    keys: Seq<Seq<char>>,
)
    ensures
        all_inert(project_findings(a, b, keys)),
    decreases keys.len(),
{
    if keys.len() > 0 {
        let k = keys.last();
        lemma_project_findings_inert(a, b, keys.drop_last());
        reveal_strlit("[project] ");
        lemma_sanitize_inert(k, 0);
        lemma_inert_concat("[project] "@, sanitize_seq(k));
        lemma_all_inert_concat(
            project_findings(a, b, keys.drop_last()),
            seq!["[project] "@ + sanitize_seq(k)],
        );
        assert(project_findings(a, b, keys.drop_last()).push("[project] "@ + sanitize_seq(k))
            =~= project_findings(a, b, keys.drop_last()) + seq!["[project] "@ + sanitize_seq(k)]);
    }
}

proof fn lemma_key_findings_inert(a: TomlTree, b: TomlTree, k: Seq<char>)
    ensures
        all_inert(key_findings(a, b, k)),
{
    let av = tree_get(a, k);
    let bv = tree_get(b, k);
    if opt_tree_eq(av, bv) {
    } else if k == "project"@ {
        let ea = entries_of(av);
        let eb = entries_of(bv);
        lemma_project_findings_inert(ea, eb, key_union(ea, eb));
    } else if k == "dependency-groups"@ {
    } else if k == "tool"@ {
        reveal_strlit("[tool.uv]");
        reveal_strlit("[tool] (a section other than uv)");
        let x = if !entries_eq(
            without(entries_of(opt_get(av, "uv"@)), "sources"@),
            without(entries_of(opt_get(bv, "uv"@)), "sources"@),
        ) {
            seq!["[tool.uv]"@]
        } else {
            seq![]
        };
        let y = if !entries_eq(without(entries_of(av), "uv"@), without(entries_of(bv), "uv"@)) {
            seq!["[tool] (a section other than uv)"@]
        } else {
            seq![]
        };
        lemma_all_inert_concat(x, y);
    } else {
        reveal_strlit("[");
        reveal_strlit("]");
        lemma_sanitize_inert(k, 0);
        lemma_inert_concat("["@, sanitize_seq(k));
        lemma_inert_concat("["@ + sanitize_seq(k), "]"@);
    }
}

proof fn lemma_changes_over_inert(a: TomlTree, b: TomlTree, keys: Seq<Seq<char>>)
    ensures
        all_inert(changes_over(a, b, keys)),
    decreases keys.len(),
{
    if keys.len() > 0 {
        lemma_changes_over_inert(a, b, keys.drop_last());
        lemma_key_findings_inert(a, b, keys.last());
        lemma_all_inert_concat(changes_over(a, b, keys.drop_last()), key_findings(a, b, keys.last()));
    }
}

/// What the review of a staged manifest reports never carries a terminal
/// escape, nor any other control or bidirectional-override character: the
/// manifest is written by the resolution being reviewed, and the keys it
/// names are quoted sanitized.
pub proof fn lemma_manifest_findings_are_inert(before: Option<TomlTree>, after: Option<TomlTree>)
    ensures
        all_inert(unexpected_spec(before, after)),
{
    if let (Some(a), Some(b)) = (before, after) {
        lemma_changes_over_inert(a, b, key_union(entries_of(Some(a)), entries_of(Some(b))));
    }
}

} // verus!
