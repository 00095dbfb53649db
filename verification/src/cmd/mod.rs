//! The decisions behind senv's commands. Finding the project, reading and
//! writing files and printing happen at the edge; what a command concludes
//! from what it read is here.

use vstd::prelude::*;
use crate::error::{Result, SenvError};
use crate::project::{VerdictView, verdict_of};
use crate::text::{chars_of, extend_chars, extend_str, string_of, strs};
use crate::trust::{PolicySnapshot, Verdict, is_default_snapshot, widenings_spec};
use crate::lines::{Line, blank, emit, err, lines_view, prefixed_lines, push_prefixed};

pub mod allow;
pub mod inspect;
pub mod install;
pub mod run;

verus! {

/// The widenings as an indented list, one `+` per line.
pub open spec fn bullet_list(ws: Seq<Seq<char>>) -> Seq<char>
    decreases ws.len(),
{
    if ws.len() == 0 {
        seq![]
    } else {
        bullet_list(ws.drop_last()) + "\n    + "@ + ws.last()
    }
}

fn bullets(ws: &[String]) -> (r: Vec<char>)
    ensures
        r@ == bullet_list(strs(ws@)),
{
    let mut out: Vec<char> = Vec::new();
    let mut i: usize = 0;
    while i < ws.len()
        invariant
            i <= ws@.len(),
            out@ == bullet_list(strs(ws@).take(i as int)),
        decreases ws.len() - i,
    {
        extend_str(&mut out, "\n    + ");
        extend_str(&mut out, ws[i].as_str());
        assert(strs(ws@).take(i + 1).drop_last() =~= strs(ws@).take(i as int));
        i = i + 1;
    }
    assert(strs(ws@).take(ws@.len() as int) =~= strs(ws@));
    out
}

pub open spec fn first_sight_fix() -> Seq<char> {
    "read the settings above; if they are what you want, run `senv trust` to accept them"@
}

/// The refusal a project gets when senv has no baseline to compare its
/// policy with (never seen, or recorded in an older format) and the policy
/// grants more than senv's defaults.
pub fn first_sight_error(config_path: &str, wide: &[String], format_changed: bool) -> (e: SenvError)
    ensures
        e matches SenvError::Refused { what, why, fix } && fix@ == first_sight_fix() && why@
            == "the policy asks for:"@ + bullet_list(strs(wide@)) + if format_changed {
            "\n  Re-confirming it once after an upgrade is the honest thing to do: senv will not carry forward an approval it can no longer check."@
        } else {
            "\n  senv has no earlier version of this project's policy to compare against, so it cannot tell a configuration you wrote from one that was written for you."@
        } && what@ == if format_changed {
            "senv reads policies in a new format and cannot compare the one it recorded here"@
        } else {
            config_path@ + " grants more than senv's defaults, and senv has not seen this project before"@
        },
{
    let list = bullets(wide);
    let mut why = chars_of("the policy asks for:");
    extend_chars(&mut why, list.as_slice());
    let what = if format_changed {
        extend_str(
            &mut why,
            "\n  Re-confirming it once after an upgrade is the honest thing to do: senv will not carry forward an approval it can no longer check.",
        );
        String::from_str("senv reads policies in a new format and cannot compare the one it recorded here")
    } else {
        extend_str(
            &mut why,
            "\n  senv has no earlier version of this project's policy to compare against, so it cannot tell a configuration you wrote from one that was written for you.",
        );
        let mut w = chars_of(config_path);
        extend_str(&mut w, " grants more than senv's defaults, and senv has not seen this project before");
        string_of(w.as_slice())
    };
    SenvError::refused(
        what,
        string_of(why.as_slice()),
        String::from_str("read the settings above; if they are what you want, run `senv trust` to accept them"),
    )
}

pub open spec fn widened_what() -> Seq<char> {
    "this project's policy grants more than senv recorded, so nothing was run"@
}

/// The refusal a widened policy gets: it lists exactly what changed, because
/// the reader cannot otherwise tell "you edited this and forgot" from
/// "something edited this for you".
pub fn widened_error(widenings: &[String]) -> (e: SenvError)
    ensures
        e matches SenvError::Refused { what, why, fix } && what@ == widened_what() && why@
            == "the policy on disk is wider than the one you last accepted:"@ + bullet_list(
            strs(widenings@),
        )
            + "\n  senv.toml and pyproject.toml both live in your project, which your code can write — so a change neither you nor your tools made is worth looking at before running anything."@
            && fix@
            == "if you made this change, run `senv trust` to accept it; if you did not, inspect those files and your recent dependencies first"@,
{
    let list = bullets(widenings);
    let mut why = chars_of("the policy on disk is wider than the one you last accepted:");
    extend_chars(&mut why, list.as_slice());
    extend_str(
        &mut why,
        "\n  senv.toml and pyproject.toml both live in your project, which your code can write — so a change neither you nor your tools made is worth looking at before running anything.",
    );
    SenvError::refused(
        String::from_str("this project's policy grants more than senv recorded, so nothing was run"),
        string_of(why.as_slice()),
        String::from_str(
            "if you made this change, run `senv trust` to accept it; if you did not, inspect those files and your recent dependencies first",
        ),
    )
}

/// What senv's defaults say about `current`: every way it grants more than
/// a project without a `senv.toml`.
pub open spec fn beyond_defaults_empty(current: PolicySnapshot) -> bool {
    forall|d: PolicySnapshot| is_default_snapshot(d) ==> #[trigger] widenings_spec(current, d).len() == 0
}

/// May a command execute under `current`, given the baseline senv recorded?
/// A widened policy never; an unchanged or narrowed one always; with no
/// comparable baseline, only a policy that grants nothing beyond senv's
/// defaults.
pub open spec fn gate_passes(current: PolicySnapshot, trusted: Option<PolicySnapshot>) -> bool {
    match verdict_of(current, trusted) {
        VerdictView::Widened(_) => false,
        VerdictView::Trusted => true,
        _ => beyond_defaults_empty(current),
    }
}

/// Every default baseline reads a snapshot the same way.
pub proof fn lemma_default_baselines_agree(current: PolicySnapshot, a: PolicySnapshot, b: PolicySnapshot)
    requires
        is_default_snapshot(a),
        is_default_snapshot(b),
    ensures
        widenings_spec(current, a) == widenings_spec(current, b),
{
    assert(strs(a.run_hosts@) =~= strs(b.run_hosts@));
    assert(strs(a.run_read@) =~= strs(b.run_read@));
    assert(strs(a.run_write@) =~= strs(b.run_write@));
    assert(strs(a.run_env_pass@) =~= strs(b.run_env_pass@));
    assert(strs(a.install_indexes@) =~= strs(b.install_indexes@));
    assert(strs(a.install_read@) =~= strs(b.install_read@));
    assert(strs(a.secrets@) =~= strs(b.secrets@));
}

/// Apply the trust verdict for a command about to execute something: refuse
/// a widened policy, and adopt anything else as the new baseline (`Ok`: the
/// caller records `current`, the very snapshot judged here).
pub fn apply_verdict(config_path: &str, current: &PolicySnapshot, verdict: &Verdict) -> (r: Result<()>)
    ensures
        (verdict is Widened) ==> (r matches Err(e) && e matches SenvError::Refused { what, .. } && what@ == widened_what()),
        (verdict is Trusted) ==> r is Ok,
        (verdict is FirstSight || verdict is FormatChanged) ==> (r is Ok <==> beyond_defaults_empty(*current)),
        (verdict is FirstSight || verdict is FormatChanged) && r is Err ==> (r matches Err(e) && e matches SenvError::Refused { fix, .. } && fix@ == first_sight_fix()),
{
    match verdict {
        Verdict::Widened(w) => Err(widened_error(w.as_slice())),
        Verdict::Trusted => Ok(()),
        Verdict::FirstSight | Verdict::FormatChanged => {
            let d = PolicySnapshot::defaults();
            let wide = current.widenings(&d);
            proof {
                assert forall|e: PolicySnapshot| is_default_snapshot(e) implies #[trigger] widenings_spec(*current, e).len() == strs(wide@).len() by {
                    lemma_default_baselines_agree(*current, d, e);
                }
            }
            if wide.len() == 0 {
                return Ok(());
            }
            let format_changed = matches!(verdict, Verdict::FormatChanged);
            Err(first_sight_error(config_path, wide.as_slice(), format_changed))
        },
    }
}

/// For a verdict computed against the recorded baseline, a command goes
/// ahead exactly when [`gate_passes`] says so: the trust check refuses
/// every widening and nothing else.
pub proof fn lemma_gate_refuses_every_widening(current: PolicySnapshot, previous: PolicySnapshot)
    requires
        previous.version == crate::trust::SNAPSHOT_VERSION,
    ensures
        gate_passes(current, Some(previous)) <==> crate::trust::grants_no_more(current, previous),
{
    crate::trust::lemma_silent_iff_grants_no_more(current, previous);
}

// ── notes and warnings around finding the project ──────────────────────────

pub open spec fn workspace_note(root: Seq<char>) -> Seq<char> {
    "note: using "@ + root + " \u{2014} this directory belongs to that uv workspace."@
}

pub open spec fn member_note(root: Seq<char>) -> Seq<char> {
    "note: using the workspace at "@ + root
        + " \u{2014} its lockfile and environment cover every member."@
}

pub open spec fn enclosing_note(outer: Seq<char>) -> Seq<char> {
    "note: this project sits inside "@ + outer
        + ", which senv also tracks. Each has its own policy and environment \u{2014} check you are in the one you meant."@
}

/// What senv notes, on standard error, about the project it found from the
/// working directory: that the directory lies outside the project (it
/// belongs to a workspace rooted elsewhere), or that it is a workspace
/// member with its own manifest; and that the project sits inside another
/// tracked project. Nothing when output is quiet (JSON, or a project
/// directory given explicitly).
pub open spec fn discovery_notes_spec(
    quiet: bool,
    root: Seq<char>,
    outside_root: bool,
    start_is_root: bool,
    root_has_manifest: bool,
    start_has_manifest: bool,
    enclosing: Option<Seq<char>>,
) -> Seq<(bool, Seq<char>)> {
    if quiet {
        seq![]
    } else {
        (if outside_root {
            seq![err(workspace_note(root))]
        } else if !start_is_root && root_has_manifest && start_has_manifest {
            seq![err(member_note(root))]
        } else {
            seq![]
        }) + match enclosing {
            Some(o) => seq![err(enclosing_note(o))],
            None => seq![],
        }
    }
}

/// [`discovery_notes_spec`], as lines.
pub fn discovery_notes(
    quiet: bool,
    root: &str,
    outside_root: bool,
    start_is_root: bool,
    root_has_manifest: bool,
    start_has_manifest: bool,
    enclosing: Option<&str>,
) -> (r: Vec<Line>)
    ensures
        lines_view(r@) == discovery_notes_spec(
            quiet,
            root@,
            outside_root,
            start_is_root,
            root_has_manifest,
            start_has_manifest,
            crate::policy::home_view(enclosing),
        ),
{
    let mut lines: Vec<Line> = Vec::new();
    if quiet {
        assert(lines_view(lines@) =~= seq![]);
        return lines;
    }
    if outside_root {
        let mut t = chars_of("note: using ");
        extend_str(&mut t, root);
        extend_str(&mut t, " \u{2014} this directory belongs to that uv workspace.");
        emit(&mut lines, true, t.as_slice());
    } else if !start_is_root && root_has_manifest && start_has_manifest {
        let mut t = chars_of("note: using the workspace at ");
        extend_str(&mut t, root);
        extend_str(&mut t, " \u{2014} its lockfile and environment cover every member.");
        emit(&mut lines, true, t.as_slice());
    }
    let ghost a = lines_view(lines@);
    if let Some(o) = enclosing {
        let mut t = chars_of("note: this project sits inside ");
        extend_str(&mut t, o);
        extend_str(
            &mut t,
            ", which senv also tracks. Each has its own policy and environment \u{2014} check you are in the one you meant.",
        );
        emit(&mut lines, true, t.as_slice());
    }
    assert(lines_view(lines@) =~= discovery_notes_spec(
        quiet,
        root@,
        outside_root,
        start_is_root,
        root_has_manifest,
        start_has_manifest,
        crate::policy::home_view(enclosing),
    ));
    lines
}

/// The warning an inspecting command prints, on standard error, when the
/// policy on disk grants more than senv recorded: each widening, and that
/// executing commands are refused until `senv trust`. Nothing otherwise.
pub open spec fn untrusted_warning_spec(config_path: Seq<char>, verdict: Verdict) -> Seq<(bool, Seq<char>)> {
    match verdict {
        Verdict::Widened(w) => seq![err("warning: "@ + config_path + " grants more than senv recorded:"@)]
            + prefixed_lines(true, "  + "@, strs(w@)) + seq![
            err("  Commands that execute anything are refused until you run `senv trust`."@),
            err(seq![]),
        ],
        _ => seq![],
    }
}

/// [`untrusted_warning_spec`], as lines.
pub fn untrusted_warning(config_path: &str, verdict: &Verdict) -> (r: Vec<Line>)
    ensures
        lines_view(r@) == untrusted_warning_spec(config_path@, *verdict),
{
    let mut lines: Vec<Line> = Vec::new();
    match verdict {
        Verdict::Widened(w) => {
            let mut t = chars_of("warning: ");
            extend_str(&mut t, config_path);
            extend_str(&mut t, " grants more than senv recorded:");
            emit(&mut lines, true, t.as_slice());
            push_prefixed(&mut lines, true, "  + ", w.as_slice());
            emit(
                &mut lines,
                true,
                chars_of(
                    "  Commands that execute anything are refused until you run `senv trust`.",
                ).as_slice(),
            );
            blank(&mut lines, true);
        },
        _ => {},
    }
    assert(lines_view(lines@) =~= untrusted_warning_spec(config_path@, *verdict));
    lines
}

} // verus!
