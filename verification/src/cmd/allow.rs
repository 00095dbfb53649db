//! `senv allow`: adding hosts to the run phase's allowlist in `senv.toml`.
//!
//! The file is edited with `toml_edit`, so the user's comments and layout
//! survive; what is edited, and when the edit is refused, is decided here.

use vstd::prelude::*;
use crate::cmd::inspect::{AllowMerge, merge_allowlist, merge_hosts};
use crate::config::{host_pattern_error, validate_host_pattern};
use crate::error::{Result, SenvError};
use crate::text::{str_eq, strs};

verus! {

/// What `toml_edit` reads of `[run] net` in a `senv.toml` text: the parse
/// error's text; `None` when `[run]` is there but is not a table; otherwise
/// `net` as a string (if it is one) and `net`'s items (if it is an array),
/// each as a string or `None` for an item of another type.
pub uninterp spec fn edit_run_net(text: Seq<char>) -> core::result::Result<
    Option<(Option<Seq<char>>, Option<Seq<Option<Seq<char>>>>)>,
    Seq<char>,
>;

/// The text `toml_edit` renders after `[run] net` is set to the array of
/// `hosts` (a `[run]` table is added when there is none); `text` itself when
/// it does not parse or `[run]` is not a table.
pub uninterp spec fn edit_with_run_net(text: Seq<char>, hosts: Seq<Seq<char>>) -> Seq<char>;

/// `[run] net` as `toml_edit` reads it.
pub struct RunNetReading {
    /// `net`, when it is a string.
    pub word: Option<String>,
    /// `net`'s items, when it is an array: each a string, or `None`.
    pub items: Option<Vec<Option<String>>>,
}

pub open spec fn opt_strs(v: Seq<Option<String>>) -> Seq<Option<Seq<char>>> {
    v.map_values(|o: Option<String>| crate::text::opt_str(o))
}

pub open spec fn reading_view(r: core::result::Result<Option<RunNetReading>, String>) -> core::result::Result<
    Option<(Option<Seq<char>>, Option<Seq<Option<Seq<char>>>>)>,
    Seq<char>,
> {
    match r {
        Err(e) => Err(e@),
        Ok(None) => Ok(None),
        Ok(Some(n)) => Ok(
            Some(
                (
                    crate::text::opt_str(n.word),
                    match n.items {
                        Some(v) => Some(opt_strs(v@)),
                        None => None,
                    },
                ),
            ),
        ),
    }
}

/// Reads `[run] net` out of a `senv.toml` text.
///
/// Trusted: `str::parse::<toml_edit::DocumentMut>` parses the text (its
/// error's `Display` text on failure), `Table::entry("run")` with
/// `Entry::or_insert` and `Item::as_table_mut` find the `[run]` table, and
/// `Table::get("net")` with `Item::as_str` / `Item::as_array` and
/// `Value::as_str` read `net`. The result depends on the text alone and is
/// only named.
#[verifier::external_body]
fn read_run_net(text: &str) -> (r: core::result::Result<Option<RunNetReading>, String>)
    ensures
        reading_view(r) == edit_run_net(text@),
{
    let mut doc = match text.parse::<toml_edit::DocumentMut>() {
        Ok(d) => d,
        Err(e) => return Err(e.to_string()),
    };
    let run = doc.entry("run").or_insert(toml_edit::Item::Table(toml_edit::Table::new()));
    let Some(run) = run.as_table_mut() else { return Ok(None) };
    let net = run.get("net");
    Ok(Some(RunNetReading {
        word: net.and_then(|n| n.as_str()).map(String::from),
        items: net.and_then(|n| n.as_array()).map(|a| a.iter().map(|v| v.as_str().map(String::from)).collect()),
    }))
}

/// Sets `[run] net` of a `senv.toml` text to an array of hosts, keeping the
/// rest of the document as it was written.
///
/// Trusted: parses with `toml_edit` as [`read_run_net`] does, builds a
/// `toml_edit::Array` of the hosts without a trailing comma, assigns it with
/// `toml_edit::value`, and renders the document with `Display`; the text
/// comes back unchanged when it does not parse or `[run]` is not a table.
/// The result depends on the arguments alone and is only named.
#[verifier::external_body]
fn write_run_net(text: &str, hosts: &[String]) -> (r: String)
    ensures
        r@ == edit_with_run_net(text@, strs(hosts@)),
{
    let Ok(mut doc) = text.parse::<toml_edit::DocumentMut>() else { return text.to_string() };
    let run = doc.entry("run").or_insert(toml_edit::Item::Table(toml_edit::Table::new()));
    let Some(run) = run.as_table_mut() else { return text.to_string() };
    let mut array = toml_edit::Array::new();
    for host in hosts {
        array.push(host.as_str());
    }
    array.set_trailing_comma(false);
    run["net"] = toml_edit::value(array);
    doc.to_string()
}

/// The strings among `net`'s items.
pub open spec fn present(items: Seq<Option<Seq<char>>>) -> Seq<Seq<char>>
    decreases items.len(),
{
    if items.len() == 0 {
        seq![]
    } else {
        match items.last() {
            Some(s) => present(items.drop_last()).push(s),
            None => present(items.drop_last()),
        }
    }
}

/// The refusal of the first requested host that is not a valid pattern.
pub open spec fn first_host_error(hosts: Seq<Seq<char>>) -> Option<Seq<char>>
    decreases hosts.len(),
{
    if hosts.len() == 0 {
        None
    } else {
        match host_pattern_error(hosts[0]) {
            Some(e) => Some(e),
            None => first_host_error(hosts.drop_first()),
        }
    }
}

pub open spec fn already_open_warning() -> Seq<char> {
    "[run] net = \"host\" is already unrestricted, so nothing was added. Remove it first if you want an allowlist."@
}

/// What `senv allow` does to `senv.toml`.
pub struct AllowPlan {
    /// The new text of `senv.toml`; `None` when nothing is to be written.
    pub text: Option<String>,
    /// The run phase's network afterwards: the allowlist, or `host`.
    pub net: Vec<String>,
    pub added: Vec<String>,
    pub already_present: Vec<String>,
    pub warnings: Vec<String>,
}

/// The plan `senv allow` follows for `hosts`, given the text of `senv.toml`
/// (empty when the file does not exist), as a spec: an invalid host is
/// refused before anything else; a `senv.toml` `toml_edit` cannot parse, or
/// whose `[run]` is not a table, is a configuration error; an unrestricted
/// network is left alone (turning it into an allowlist would narrow it
/// unasked); otherwise the hosts are merged into the allowlist.
pub open spec fn allow_outcome(
    path: Seq<char>,
    text: Seq<char>,
    hosts: Seq<Seq<char>>,
    r: Result<AllowPlan>,
) -> bool {
    match first_host_error(hosts) {
        Some(e) => r matches Err(SenvError::Refused { what, why, fix }) && what@
            == "that is not a host senv can allow"@ && why@ == e && fix@
            == "use a hostname like api.example.com"@,
        None => match edit_run_net(text) {
            Err(m) => r matches Err(SenvError::Config { path: p, message }) && p@ == path
                && message@ == m,
            Ok(None) => r matches Err(SenvError::Config { path: p, message }) && p@ == path
                && message@ == "[run] exists but is not a table"@,
            Ok(Some((word, items))) => if word == Some("host"@) {
                r matches Ok(plan) && plan.text is None && strs(plan.net@) == seq!["host"@]
                    && plan.added@.len() == 0 && strs(plan.already_present@) == hosts && strs(
                    plan.warnings@,
                ) == seq![already_open_warning()]
            } else {
                let existing = match items {
                    Some(v) => present(v),
                    None => seq![],
                };
                let (net, added, already) = merge_hosts(existing, hosts);
                r matches Ok(plan) && plan.text matches Some(t) && t@ == edit_with_run_net(
                    text,
                    net,
                ) && strs(plan.net@) == net && strs(plan.added@) == added && strs(
                    plan.already_present@,
                ) == already && plan.warnings@.len() == 0
            },
        },
    }
}

fn present_strings(items: &[Option<String>]) -> (r: Vec<String>)
    ensures
        strs(r@) == present(opt_strs(items@)),
{
    let ghost all = opt_strs(items@);
    let mut out: Vec<String> = Vec::new();
    let mut i: usize = 0;
    while i < items.len()
        invariant
            i <= items@.len(),
            all == opt_strs(items@),
            strs(out@) == present(all.take(i as int)),
        decreases items.len() - i,
    {
        assert(all.take(i + 1).drop_last() =~= all.take(i as int));
        if let Some(s) = &items[i] {
            let ghost before = strs(out@);
            out.push(s.clone());
            assert(strs(out@) =~= before.push(s@));
        }
        i = i + 1;
    }
    assert(all.take(items@.len() as int) =~= all);
    out
}

fn check_hosts(hosts: &[String]) -> (r: Result<()>)
    ensures
        match first_host_error(strs(hosts@)) {
            Some(e) => r matches Err(SenvError::Refused { what, why, fix }) && what@
                == "that is not a host senv can allow"@ && why@ == e && fix@
                == "use a hostname like api.example.com"@,
            None => r is Ok,
        },
{
    let ghost all = strs(hosts@);
    assert(all.skip(0) =~= all);
    let mut i: usize = 0;
    while i < hosts.len()
        invariant
            i <= hosts@.len(),
            all == strs(hosts@),
            first_host_error(all) == first_host_error(all.skip(i as int)),
        decreases hosts.len() - i,
    {
        match validate_host_pattern(hosts[i].as_str()) {
            Err(e) => {
                return Err(
                    SenvError::refused(
                        String::from_str("that is not a host senv can allow"),
                        e,
                        String::from_str("use a hostname like api.example.com"),
                    ),
                );
            },
            Ok(()) => {},
        }
        assert(all.skip(i as int).drop_first() =~= all.skip(i + 1));
        i = i + 1;
    }
    Ok(())
}

/// Decide what `senv allow` writes for `hosts`, from the text of
/// `senv.toml` at `path` (empty when there is none).
pub fn plan_allow(path: &str, text: &str, hosts: &[String]) -> (r: Result<AllowPlan>)
    ensures
        allow_outcome(path@, text@, strs(hosts@), r),
{
    check_hosts(hosts)?;
    let reading = match read_run_net(text) {
        Err(m) => return Err(SenvError::config(String::from_str(path), m)),
        Ok(None) => {
            return Err(
                SenvError::config(
                    String::from_str(path),
                    String::from_str("[run] exists but is not a table"),
                ),
            )
        },
        Ok(Some(n)) => n,
    };
    let is_host = match &reading.word {
        Some(w) => str_eq(w.as_str(), "host"),
        None => false,
    };
    if is_host {
        let warnings = vec![
            String::from_str(
                "[run] net = \"host\" is already unrestricted, so nothing was added. Remove it first if you want an allowlist.",
            ),
        ];
        let net = vec![String::from_str("host")];
        proof {
            assert(strs(warnings@) =~= seq![already_open_warning()]);
            assert(strs(net@) =~= seq!["host"@]);
        }
        return Ok(
            AllowPlan {
                text: None,
                net,
                added: Vec::new(),
                already_present: crate::text::clone_strings(hosts),
                warnings,
            },
        );
    }
    let existing = match &reading.items {
        Some(v) => present_strings(v.as_slice()),
        None => {
            let e: Vec<String> = Vec::new();
            assert(strs(e@) =~= seq![]);
            e
        },
    };
    let merged: AllowMerge = merge_allowlist(existing.as_slice(), hosts);
    let written = write_run_net(text, merged.net.as_slice());
    Ok(
        AllowPlan {
            text: Some(written),
            net: merged.net,
            added: merged.added,
            already_present: merged.already_present,
            warnings: Vec::new(),
        },
    )
}

} // verus!
