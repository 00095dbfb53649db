//! Turning a command's output into the denials a user can act on.
//!
//! A boundary that only says "Permission denied" trains people to disable
//! it; one that says "your code tried to read ~/datasets — add it here if
//! that was intentional" gets kept. At the kernel tiers there is no egress
//! log to read, so senv reads what the program said when it was refused.
//! That is inference, not instrumentation: a denial here is a lead for
//! `senv report --suggest`, never an authority on what happened.

use vstd::prelude::*;
use crate::text::{
    Sep, chars_eq, chars_of, contains, contains_seq, find_at, find_from, is_ascii_alnum, is_ws,
    last_index_of, rfind_char, slice_of, split_at_sep, split_seq, string_of, trim, trim_seq,
};
use crate::util::byte_len;
use crate::text::strs;
use crate::paths::{path_starts_with, path_under};

verus! {

/// Stand-in target for a refusal whose destination the error never named.
pub const UNNAMED_HOST: &'static str = "(host not named in the error)";

// ── hosts ──────────────────────────────────────────────────────────────────

/// A character a hostname token may hold where one is read out of a line.
pub open spec fn token_char(c: char) -> bool {
    is_ascii_alnum(c) || c == '.' || c == '-'
}

fn is_token_char(c: char) -> (b: bool)
    ensures
        b == token_char(c),
{
    crate::text::ascii_alnum(c) || c == '.' || c == '-'
}

/// End of the run of token characters starting at `i`.
pub open spec fn run_end(s: Seq<char>, i: int) -> int
    decreases s.len() - i,
{
    if 0 <= i < s.len() && token_char(s[i]) {
        run_end(s, i + 1)
    } else {
        i
    }
}

proof fn lemma_run_end(s: Seq<char>, i: int)
    requires
        0 <= i <= s.len(),
    ensures
        i <= run_end(s, i) <= s.len(),
    decreases s.len() - i,
{
    if 0 <= i < s.len() && token_char(s[i]) {
        lemma_run_end(s, i + 1);
    }
}

/// The token starting at `i`.
fn token_from(s: &[char], i: usize) -> (r: Vec<char>)
    requires
        i <= s.len(),
    ensures
        r@ == s@.subrange(i as int, run_end(s@, i as int)),
{
    let mut k = i;
    while k < s.len() && is_token_char(s[k])
        invariant
            i <= k <= s.len(),
            run_end(s@, i as int) == run_end(s@, k as int),
        decreases s.len() - k,
    {
        k = k + 1;
    }
    slice_of(s, i, k)
}

/// The host right after the first `scheme` in `line`, if it has a dot.
pub open spec fn host_after(line: Seq<char>, scheme: Seq<char>) -> Option<Seq<char>> {
    match find_from(line, scheme, 0) {
        Some(idx) => {
            let start = idx + scheme.len();
            let host = line.subrange(start, run_end(line, start));
            if host.contains('.') {
                Some(host)
            } else {
                None
            }
        },
        None => None,
    }
}

/// The host of the first `https://` or `http://` URL in the line.
pub open spec fn url_host_spec(line: Seq<char>) -> Option<Seq<char>> {
    match host_after(line, "https://"@) {
        Some(h) => Some(h),
        None => host_after(line, "http://"@),
    }
}

fn has_dot(s: &[char]) -> (b: bool)
    ensures
        b == s@.contains('.'),
{
    let mut i: usize = 0;
    while i < s.len()
        invariant
            i <= s.len(),
            forall|t: int| 0 <= t < i ==> s@[t] != '.',
        decreases s.len() - i,
    {
        if s[i] == '.' {
            return true;
        }
        i = i + 1;
    }
    false
}

fn host_after_of(line: &[char], scheme: &str) -> (r: Option<Vec<char>>)
    ensures
        r matches Some(h) ==> host_after(line@, scheme@) == Some(h@),
        r is None ==> host_after(line@, scheme@) is None,
{
    let p = chars_of(scheme);
    match find_at(line, p.as_slice(), 0) {
        Some(idx) => {
            proof {
                crate::text::lemma_find_from(line@, p@, 0);
                assert(crate::text::matches_at(line@, p@, idx as int));
                assert(idx + p.len() <= line.len());
            }
            let start = idx + p.len();
            proof {
                lemma_run_end(line@, start as int);
            }
            let host = token_from(line, start);
            if has_dot(host.as_slice()) {
                Some(host)
            } else {
                None
            }
        },
        None => None,
    }
}

/// The host of a URL on the line.
fn url_host(line: &[char]) -> (r: Option<Vec<char>>)
    ensures
        r matches Some(h) ==> url_host_spec(line@) == Some(h@),
        r is None ==> url_host_spec(line@) is None,
{
    match host_after_of(line, "https://") {
        Some(h) => Some(h),
        None => host_after_of(line, "http://"),
    }
}

/// Python module names: the dominant false positive, none of them a
/// registrable domain.
pub open spec fn module_names() -> Seq<Seq<char>> {
    seq![
        "socket"@, "urllib"@, "urllib3"@, "requests"@, "ssl"@, "http"@, "httpx"@, "aiohttp"@,
        "botocore"@, "asyncio"@, "self"@, "os"@,
    ]
}

/// File extensions: the other common shape that parses as a two-label
/// hostname (`setup.py`).
pub open spec fn file_extensions() -> Seq<Seq<char>> {
    seq![
        "py"@, "pyc"@, "pyi"@, "txt"@, "toml"@, "json"@, "lock"@, "cfg"@, "ini"@, "md"@,
        "yaml"@, "yml"@, "sh"@, "rs"@, "so"@, "whl"@, "tar"@, "gz"@, "zip"@, "log"@, "xml"@,
        "html"@, "csv"@, "db"@, "sqlite"@, "egg"@, "bak"@, "tmp"@, "conf"@, "pth"@,
    ]
}

/// What a hostname token may be made of.
pub open spec fn host_shape_char(c: char) -> bool {
    ('a' <= c && c <= 'z') || ('0' <= c && c <= '9') || c == '.' || c == '-'
}

/// Text before the first dot (all of it if there is none).
pub open spec fn first_label(t: Seq<char>) -> Seq<char> {
    match find_from(t, seq!['.'], 0) {
        Some(k) => t.subrange(0, k),
        None => t,
    }
}

/// Text after the last dot (all of it if there is none).
pub open spec fn last_label(t: Seq<char>) -> Seq<char> {
    match last_index_of(t, '.') {
        Some(k) => t.subrange(k + 1, t.len() as int),
        None => t,
    }
}

/// Does this token have the shape of a hostname a user could allowlist?
/// Uppercase is the telling signal: `NameResolutionError` and
/// `Client.Timeout` are dotted identifiers, and real hostnames in error
/// output are lowercase.
pub open spec fn looks_like_host_spec(token: Seq<char>) -> bool {
    let t = trim_seq(token);
    let tld = last_label(t);
    &&& 4 <= byte_len(t) <= 253
    &&& t.contains('.')
    &&& t[0] != '.' && t.last() != '.' && t[0] != '/'
    &&& forall|i: int| 0 <= i < t.len() ==> host_shape_char(#[trigger] t[i])
    &&& !module_names().contains(first_label(t))
    &&& !file_extensions().contains(tld)
    &&& 2 <= tld.len() <= 24
    &&& forall|i: int| 0 <= i < tld.len() ==> 'a' <= #[trigger] tld[i] && tld[i] <= 'z'
}

/// `t` is one of `options`.
pub fn one_of(t: &[char], options: &[&str]) -> (b: bool)
    ensures
        b == options@.map_values(|o: &str| o@).contains(t@),
{
    let ghost all = options@.map_values(|o: &str| o@);
    let mut i: usize = 0;
    while i < options.len()
        invariant
            i <= options.len(),
            all == options@.map_values(|o: &str| o@),
            forall|k: int| 0 <= k < i ==> all[k] != t@,
        decreases options.len() - i,
    {
        let o = chars_of(options[i]);
        if chars_eq(o.as_slice(), t) {
            assert(all[i as int] == t@);
            return true;
        }
        i = i + 1;
    }
    false
}

fn all_host_shape(t: &[char]) -> (b: bool)
    ensures
        b == forall|i: int| 0 <= i < t@.len() ==> host_shape_char(#[trigger] t@[i]),
{
    let mut i: usize = 0;
    while i < t.len()
        invariant
            i <= t.len(),
            forall|k: int| 0 <= k < i ==> host_shape_char(#[trigger] t@[k]),
        decreases t.len() - i,
    {
        let c = t[i];
        if !(('a' <= c && c <= 'z') || ('0' <= c && c <= '9') || c == '.' || c == '-') {
            return false;
        }
        i = i + 1;
    }
    true
}

fn all_lowercase(t: &[char]) -> (b: bool)
    ensures
        b == forall|i: int| 0 <= i < t@.len() ==> 'a' <= #[trigger] t@[i] && t@[i] <= 'z',
{
    let mut i: usize = 0;
    while i < t.len()
        invariant
            i <= t.len(),
            forall|k: int| 0 <= k < i ==> 'a' <= #[trigger] t@[k] && t@[k] <= 'z',
        decreases t.len() - i,
    {
        if !('a' <= t[i] && t[i] <= 'z') {
            return false;
        }
        i = i + 1;
    }
    true
}

/// Does this token have the shape of a hostname a user could allowlist?
///
/// Conservative on purpose: a false positive becomes a suggestion to
/// allowlist a host the user never contacted.
pub fn looks_like_host(token: &str) -> (b: bool)
    ensures
        b == looks_like_host_spec(token@),
{
    let raw = chars_of(token);
    let t = trim(raw.as_slice());
    // Every test below is required, so their order does not change the
    // answer; the character check comes first because it makes the byte
    // length the character count.
    if !all_host_shape(t.as_slice()) {
        return false;
    }
    proof {
        assert forall|i: int| 0 <= i < t@.len() implies (#[trigger] t@[i] as u32) < 0x80 by {
            assert(host_shape_char(t@[i]));
        }
        crate::util::lemma_ascii_byte_len(t@);
    }
    let len = t.len();
    if len < 4 || len > 253 || !has_dot(t.as_slice()) {
        return false;
    }
    if t[0] == '.' || t[t.len() - 1] == '.' || t[0] == '/' {
        return false;
    }
    let modules: [&str; 12] = [
        "socket", "urllib", "urllib3", "requests", "ssl", "http", "httpx", "aiohttp", "botocore",
        "asyncio", "self", "os",
    ];
    assert(modules@.map_values(|o: &str| o@) =~= module_names());
    let dot = chars_of(".");
    proof {
        reveal_strlit(".");
    }
    assert(dot@ =~= seq!['.']);
    let first = match find_at(t.as_slice(), dot.as_slice(), 0) {
        Some(k) => {
            proof {
                crate::text::lemma_find_from(t@, seq!['.'], 0);
            }
            slice_of(t.as_slice(), 0, k)
        },
        None => slice_of(t.as_slice(), 0, t.len()),
    };
    assert(first@ == first_label(t@));
    if one_of(first.as_slice(), &modules) {
        return false;
    }
    let tld = match rfind_char(t.as_slice(), '.') {
        Some(k) => slice_of(t.as_slice(), k + 1, t.len()),
        None => slice_of(t.as_slice(), 0, t.len()),
    };
    let extensions: [&str; 30] = [
        "py", "pyc", "pyi", "txt", "toml", "json", "lock", "cfg", "ini", "md", "yaml", "yml", "sh",
        "rs", "so", "whl", "tar", "gz", "zip", "log", "xml", "html", "csv", "db", "sqlite", "egg",
        "bak", "tmp", "conf", "pth",
    ];
    assert(extensions@.map_values(|o: &str| o@) =~= file_extensions());
    assert(tld@ == last_label(t@));
    if one_of(tld.as_slice(), &extensions) {
        return false;
    }
    let r = tld.len() >= 2 && tld.len() <= 24 && all_lowercase(tld.as_slice());
    proof {
        let tt = trim_seq(token@);
        assert(tt == t@);
        assert(4 <= byte_len(tt) <= 253);
        assert(tt.contains('.'));
        assert(tt[0] != '.' && tt.last() != '.' && tt[0] != '/');
        assert(forall|i: int| 0 <= i < tt.len() ==> host_shape_char(#[trigger] tt[i]));
        assert(!module_names().contains(first_label(tt)));
        assert(!file_extensions().contains(last_label(tt)));
    }
    r
}

/// The first odd-numbered piece, from `k` on, that looks like a host: the
/// pieces between opening and closing quotes.
pub open spec fn quoted_piece(pieces: Seq<Seq<char>>, k: int) -> Option<Seq<char>>
    decreases pieces.len() + 2 - k,
{
    if k < 0 || k >= pieces.len() {
        None
    } else if looks_like_host_spec(pieces[k]) {
        Some(pieces[k])
    } else {
        quoted_piece(pieces, k + 2)
    }
}

/// A host inside single quotes, else inside double quotes — as in
/// `('api.example.com', 443)` in a traceback frame.
pub open spec fn quoted_host_spec(line: Seq<char>) -> Option<Seq<char>> {
    match quoted_piece(split_seq(line, Sep::Char('\'')), 1) {
        Some(h) => Some(h),
        None => quoted_piece(split_seq(line, Sep::Char('"')), 1),
    }
}

fn quoted_in(line: &[char], quote: char) -> (r: Option<Vec<char>>)
    ensures
        r matches Some(h) ==> quoted_piece(split_seq(line@, Sep::Char(quote)), 1) == Some(h@),
        r is None ==> quoted_piece(split_seq(line@, Sep::Char(quote)), 1) is None,
{
    let parts = split_at_sep(line, Sep::Char(quote));
    let ghost ps = split_seq(line@, Sep::Char(quote));
    let mut k: usize = 1;
    while k < parts.len()
        invariant
            parts@.len() == ps.len(),
            forall|t: int| 0 <= t < parts@.len() ==> #[trigger] parts@[t]@ == ps[t],
            quoted_piece(ps, 1) == quoted_piece(ps, k as int),
            ps == split_seq(line@, Sep::Char(quote)),
            k >= 1,
        decreases parts.len() - k,
    {
        let piece = string_of(parts[k].as_slice());
        if looks_like_host(piece.as_str()) {
            let h = slice_of(parts[k].as_slice(), 0, parts[k].len());
            assert(h@ =~= ps[k as int]);
            return Some(h);
        }
        if parts.len() - k <= 2 {
            assert(quoted_piece(ps, k + 2) is None);
            return None;
        }
        k = k + 2;
    }
    None
}

fn quoted_host(line: &[char]) -> (r: Option<Vec<char>>)
    ensures
        r matches Some(h) ==> quoted_host_spec(line@) == Some(h@),
        r is None ==> quoted_host_spec(line@) is None,
{
    match quoted_in(line, '\'') {
        Some(h) => Some(h),
        None => quoted_in(line, '"'),
    }
}

/// Characters stripped from the front of what follows a marker.
pub open spec fn lead_char(c: char) -> bool {
    c == ':' || c == ' ' || c == '\'' || c == '"'
}

pub open spec fn skip_lead(s: Seq<char>, i: int) -> int
    decreases s.len() - i,
{
    if 0 <= i < s.len() && lead_char(s[i]) {
        skip_lead(s, i + 1)
    } else {
        i
    }
}

proof fn lemma_skip_lead(s: Seq<char>, i: int)
    requires
        0 <= i <= s.len(),
    ensures
        i <= skip_lead(s, i) <= s.len(),
    decreases s.len() - i,
{
    if 0 <= i < s.len() && lead_char(s[i]) {
        lemma_skip_lead(s, i + 1);
    }
}

/// The host named right after `marker` on the line, if what follows it
/// looks like one.
pub open spec fn marker_host(line: Seq<char>, marker: Seq<char>) -> Option<Seq<char>> {
    match find_from(line, marker, 0) {
        Some(idx) => {
            let start = skip_lead(line, idx + marker.len());
            let token = line.subrange(start, run_end(line, start));
            if looks_like_host_spec(token) {
                Some(token)
            } else {
                None
            }
        },
        None => None,
    }
}

/// A hostname on the line, read conservatively: only in a URL, in quotes,
/// or right after a phrase that names one — never a bare dotted token,
/// which in Python output is far more often a module path.
pub open spec fn host_from_line_spec(line: Seq<char>) -> Option<Seq<char>> {
    if url_host_spec(line) is Some {
        url_host_spec(line)
    } else if quoted_host_spec(line) is Some {
        quoted_host_spec(line)
    } else if marker_host(line, "Could not resolve host:"@) is Some {
        marker_host(line, "Could not resolve host:"@)
    } else if marker_host(line, "resolve host"@) is Some {
        marker_host(line, "resolve host"@)
    } else if marker_host(line, "hostname"@) is Some {
        marker_host(line, "hostname"@)
    } else {
        marker_host(line, "connect to"@)
    }
}

fn marker_host_of(line: &[char], marker: &str) -> (r: Option<Vec<char>>)
    ensures
        r matches Some(h) ==> marker_host(line@, marker@) == Some(h@),
        r is None ==> marker_host(line@, marker@) is None,
{
    let m = chars_of(marker);
    match find_at(line, m.as_slice(), 0) {
        Some(idx) => {
            proof {
                crate::text::lemma_find_from(line@, m@, 0);
                assert(crate::text::matches_at(line@, m@, idx as int));
                assert(idx + m.len() <= line.len());
            }
            let mut start = idx + m.len();
            while start < line.len() && (line[start] == ':' || line[start] == ' ' || line[start]
                == '\'' || line[start] == '"')
                invariant
                    idx + m@.len() <= start <= line.len(),
                    skip_lead(line@, idx + m@.len()) == skip_lead(line@, start as int),
                decreases line.len() - start,
            {
                start = start + 1;
            }
            proof {
                lemma_run_end(line@, start as int);
            }
            let token = token_from(line, start);
            let ts = string_of(token.as_slice());
            if looks_like_host(ts.as_str()) {
                Some(token)
            } else {
                None
            }
        },
        None => None,
    }
}

/// Pull a hostname out of a line, conservatively.
fn host_from_line(line: &[char]) -> (r: Option<Vec<char>>)
    ensures
        r matches Some(h) ==> host_from_line_spec(line@) == Some(h@),
        r is None ==> host_from_line_spec(line@) is None,
{
    if let Some(h) = url_host(line) {
        return Some(h);
    }
    if let Some(h) = quoted_host(line) {
        return Some(h);
    }
    if let Some(h) = marker_host_of(line, "Could not resolve host:") {
        return Some(h);
    }
    if let Some(h) = marker_host_of(line, "resolve host") {
        return Some(h);
    }
    if let Some(h) = marker_host_of(line, "hostname") {
        return Some(h);
    }
    marker_host_of(line, "connect to")
}

/// How far above an error senv looks for the host it was about: a traceback
/// frame is right there, and searching further would start attributing a
/// failure to a hostname printed by something unrelated.
pub const CONTEXT_WINDOW: usize = 10;

/// The host named by a URL or in quotes on line `j`, else on the lines
/// above it down to `lo`, nearest first.
pub open spec fn context_host(lines: Seq<Seq<char>>, lo: int, j: int) -> Option<Seq<char>>
    decreases j - lo + 1,
{
    if j < lo || j < 0 || j >= lines.len() {
        None
    } else if url_host_spec(lines[j]) is Some {
        url_host_spec(lines[j])
    } else if quoted_host_spec(lines[j]) is Some {
        quoted_host_spec(lines[j])
    } else {
        context_host(lines, lo, j - 1)
    }
}

/// The host named on one of the (at most ten) lines just above line `i`.
pub open spec fn host_from_context_spec(lines: Seq<Seq<char>>, i: int) -> Option<Seq<char>> {
    let lo = if i >= CONTEXT_WINDOW { i - CONTEXT_WINDOW } else { 0 };
    context_host(lines, lo, i - 1)
}

fn host_from_context(lines: &Vec<Vec<char>>, i: usize) -> (r: Option<Vec<char>>)
    requires
        i <= lines@.len(),
    ensures
        r matches Some(h) ==> host_from_context_spec(lines@.map_values(|l: Vec<char>| l@), i as int) == Some(h@),
        r is None ==> host_from_context_spec(lines@.map_values(|l: Vec<char>| l@), i as int) is None,
{
    let ghost ls = lines@.map_values(|l: Vec<char>| l@);
    let lo = if i >= CONTEXT_WINDOW { i - CONTEXT_WINDOW } else { 0 };
    let mut j = i;
    while j > lo
        invariant
            lo <= j <= i <= lines@.len(),
            ls == lines@.map_values(|l: Vec<char>| l@),
            host_from_context_spec(ls, i as int) == context_host(ls, lo as int, j - 1),
        decreases j,
    {
        let line = &lines[j - 1];
        assert(ls[j - 1] == line@);
        if let Some(h) = url_host(line.as_slice()) {
            return Some(h);
        }
        if let Some(h) = quoted_host(line.as_slice()) {
            return Some(h);
        }
        j = j - 1;
    }
    None
}

// ── filesystem refusals ────────────────────────────────────────────────────

/// The line reads like a blocked file operation.
pub open spec fn names_fs_refusal(line: Seq<char>) -> bool {
    ||| contains_seq(line, "Permission denied"@)
    ||| contains_seq(line, "Read-only file system"@)
    ||| contains_seq(line, "Operation not permitted"@)
    ||| contains_seq(line, "EACCES"@)
}

pub open spec fn trail_char(c: char) -> bool {
    c == ':' || c == ',' || c == '.' || c == ';'
}

/// `t` without trailing punctuation.
pub open spec fn trim_trail(t: Seq<char>) -> Seq<char>
    decreases t.len(),
{
    if t.len() > 0 && trail_char(t.last()) {
        trim_trail(t.drop_last())
    } else {
        t
    }
}

/// The absolute paths among the tokens (a bare `/` is not one), trailing
/// punctuation removed.
pub open spec fn path_candidates(tokens: Seq<Seq<char>>) -> Seq<Seq<char>>
    decreases tokens.len(),
{
    if tokens.len() == 0 {
        seq![]
    } else {
        let rest = path_candidates(tokens.drop_last());
        let t = tokens.last();
        if t.len() > 1 && t[0] == '/' {
            rest.push(trim_trail(t))
        } else {
            rest
        }
    }
}

/// The longest candidate by byte length, the last of equally long ones
/// (as `Iterator::max_by_key` picks).
pub open spec fn longest_last(c: Seq<Seq<char>>) -> Option<Seq<char>>
    decreases c.len(),
{
    if c.len() == 0 {
        None
    } else {
        match longest_last(c.drop_last()) {
            None => Some(c.last()),
            Some(b) => if byte_len(c.last()) >= byte_len(b) {
                Some(c.last())
            } else {
                Some(b)
            },
        }
    }
}

/// The path a line says was refused: the longest absolute path on a line
/// that reads like a blocked file operation.
pub open spec fn filesystem_denial_spec(line: Seq<char>) -> Option<Seq<char>> {
    if names_fs_refusal(line) {
        longest_last(path_candidates(split_seq(line, Sep::PathDelim)))
    } else {
        None
    }
}

fn has_marker(line: &[char], m: &str) -> (b: bool)
    ensures
        b == contains_seq(line@, m@),
{
    let mv = chars_of(m);
    contains(line, mv.as_slice())
}

fn trimmed_trail(t: &[char]) -> (r: Vec<char>)
    ensures
        r@ == trim_trail(t@),
{
    let mut hi = t.len();
    assert(t@.subrange(0, hi as int) =~= t@);
    while hi > 0 && (t[hi - 1] == ':' || t[hi - 1] == ',' || t[hi - 1] == '.' || t[hi - 1] == ';')
        invariant
            hi <= t.len(),
            trim_trail(t@) == trim_trail(t@.subrange(0, hi as int)),
        decreases hi,
    {
        assert(t@.subrange(0, hi as int).drop_last() =~= t@.subrange(0, hi - 1));
        hi = hi - 1;
    }
    assert(t@.subrange(0, 0) =~= seq![] || hi > 0);
    slice_of(t, 0, hi)
}

/// The UTF-8 length of some characters.
fn utf8_len(s: &[char]) -> (n: usize)
    ensures
        n == byte_len(s@),
{
    let st = string_of(s);
    st.as_str().as_bytes().len()
}

fn filesystem_denial(line: &[char]) -> (r: Option<Vec<char>>)
    ensures
        r matches Some(p) ==> filesystem_denial_spec(line@) == Some(p@),
        r is None ==> filesystem_denial_spec(line@) is None,
{
    if !(has_marker(line, "Permission denied") || has_marker(line, "Read-only file system")
        || has_marker(line, "Operation not permitted") || has_marker(line, "EACCES")) {
        return None;
    }
    let tokens = split_at_sep(line, Sep::PathDelim);
    let ghost ts = split_seq(line@, Sep::PathDelim);
    let mut best: Option<Vec<char>> = None;
    let mut best_len: usize = 0;
    let mut i: usize = 0;
    while i < tokens.len()
        invariant
            i <= tokens@.len(),
            tokens@.len() == ts.len(),
            forall|t: int| 0 <= t < tokens@.len() ==> #[trigger] tokens@[t]@ == ts[t],
            ts == split_seq(line@, Sep::PathDelim),
            best matches Some(b) ==> longest_last(path_candidates(ts.take(i as int))) == Some(b@)
                && best_len == byte_len(b@),
            best is None ==> longest_last(path_candidates(ts.take(i as int))) is None,
        decreases tokens.len() - i,
    {
        let t = &tokens[i];
        proof {
            assert(ts.take(i + 1).drop_last() =~= ts.take(i as int));
            assert(ts.take(i + 1).last() == t@);
        }
        let ghost cands = path_candidates(ts.take(i as int));
        if t.len() > 1 && t[0] == '/' {
            let c = trimmed_trail(t.as_slice());
            let n = utf8_len(c.as_slice());
            proof {
                assert(path_candidates(ts.take(i + 1)) == cands.push(c@));
                assert(cands.push(c@).drop_last() =~= cands);
            }
            let take = match &best {
                None => true,
                Some(_) => n >= best_len,
            };
            if take {
                best = Some(c);
                best_len = n;
            }
        } else {
            assert(path_candidates(ts.take(i + 1)) == cands);
        }
        i = i + 1;
    }
    assert(ts.take(tokens@.len() as int) =~= ts);
    best
}

// ── denials ────────────────────────────────────────────────────────────────

#[derive(Debug, Clone, Copy, PartialEq, Eq, Structural)]
pub enum DenialKind {
    Filesystem,
    Network,
}

/// Whether widening the policy is a sensible response to a denial.
#[derive(Debug, Clone)]
pub enum Verdict {
    /// The policy could reasonably be widened to allow this.
    Suggestable,
    /// Something was blocked, but the error did not say what — so senv
    /// reports it and has nothing to suggest.
    Unnamed,
    /// senv refuses to suggest widening: writing to the environment at run
    /// time is denied on purpose, and credential paths are never granted.
    ByDesign(String),
}

/// A [`Verdict`] as a value.
pub enum VerdictView {
    Suggestable,
    Unnamed,
    ByDesign(Seq<char>),
}

impl View for Verdict {
    type V = VerdictView;

    open spec fn view(&self) -> VerdictView {
        match self {
            Verdict::Suggestable => VerdictView::Suggestable,
            Verdict::Unnamed => VerdictView::Unnamed,
            Verdict::ByDesign(r) => VerdictView::ByDesign(r@),
        }
    }
}

pub open spec fn unnamed_reason() -> Seq<char> {
    "the error did not name the host. Check the traceback, then allow it with `senv allow <host>`."@
}

pub open spec fn environment_reason() -> Seq<char> {
    "the environment is read-only while your code runs, so packages cannot be patched between runs. Change it with `senv add`/`senv sync`, not by widening the run policy."@
}

pub open spec fn credential_reason() -> Seq<char> {
    "this is a credential path. senv will not suggest granting it; if a tool truly needs one, pass it as a declared secret instead."@
}

impl Verdict {
    pub fn is_suggestable(&self) -> (b: bool)
        ensures
            b == (self is Suggestable),
    {
        matches!(self, Verdict::Suggestable)
    }

    /// Why this will not be suggested, for `senv report`.
    pub fn reason(&self) -> (r: Option<String>)
        ensures
            r matches Some(t) ==> (match self@ {
                VerdictView::ByDesign(why) => t@ == why,
                VerdictView::Unnamed => t@ == unnamed_reason(),
                VerdictView::Suggestable => false,
            }),
            r is None <==> self is Suggestable,
    {
        match self {
            Verdict::ByDesign(r) => Some(r.clone()),
            Verdict::Unnamed => Some(String::from_str(
                "the error did not name the host. Check the traceback, then allow it with `senv allow <host>`.",
            )),
            Verdict::Suggestable => None,
        }
    }
}

/// One thing the boundary refused, recovered from the command's own output.
#[derive(Debug, Clone)]
pub struct Denial {
    pub kind: DenialKind,
    /// The path or host the command was refused.
    pub target: String,
    /// Whether widening the policy is a sensible response.
    pub verdict: Verdict,
    /// The line it was inferred from, trimmed and cut to its last 200 bytes.
    pub evidence: String,
}

impl Denial {
    /// A copy with the same view.
    pub fn copy(&self) -> (r: Denial)
        ensures
            r@ == self@,
    {
        let verdict = match &self.verdict {
            Verdict::Suggestable => Verdict::Suggestable,
            Verdict::Unnamed => Verdict::Unnamed,
            Verdict::ByDesign(r) => Verdict::ByDesign(r.clone()),
        };
        Denial {
            kind: self.kind,
            target: self.target.clone(),
            verdict,
            evidence: self.evidence.clone(),
        }
    }
}

/// A [`Denial`] as a value.
pub struct DenialView {
    pub kind: DenialKind,
    pub target: Seq<char>,
    pub verdict: VerdictView,
    pub evidence: Seq<char>,
}

impl View for Denial {
    type V = DenialView;

    open spec fn view(&self) -> DenialView {
        DenialView {
            kind: self.kind,
            target: self.target@,
            verdict: self.verdict@,
            evidence: self.evidence@,
        }
    }
}

pub open spec fn denial_views(v: Seq<Denial>) -> Seq<DenialView> {
    v.map_values(|d: Denial| d@)
}

/// Credential locations senv never suggests granting.
pub open spec fn credential_markers() -> Seq<Seq<char>> {
    seq![".ssh"@, ".aws"@, ".gnupg"@, ".netrc"@, ".git-credentials"@, ".pypirc"@]
}

/// Some protected path lies at or above `path`.
pub open spec fn under_protected(protected: Seq<Seq<char>>, path: Seq<char>) -> bool {
    exists|i: int| 0 <= i < protected.len() && #[trigger] path_starts_with(path, protected[i])
}

/// The verdict on a refused path.
pub open spec fn classify_spec(protected: Seq<Seq<char>>, path: Seq<char>) -> VerdictView {
    if under_protected(protected, path) {
        VerdictView::ByDesign(environment_reason())
    } else if exists|i: int|
        0 <= i < credential_markers().len() && #[trigger] contains_seq(
            path,
            credential_markers()[i],
        ) {
        VerdictView::ByDesign(credential_reason())
    } else {
        VerdictView::Suggestable
    }
}

/// Does a network refusal show on this line, named or not?
pub open spec fn is_network_refusal_spec(line: Seq<char>) -> bool {
    ||| contains_seq(line, "Network is unreachable"@)
    ||| contains_seq(line, "Temporary failure in name resolution"@)
    ||| contains_seq(line, "Name or service not known"@)
    ||| contains_seq(line, "nodename nor servname provided"@)
    ||| contains_seq(line, "Could not resolve host"@)
    ||| contains_seq(line, "failed to lookup address information"@)
    ||| contains_seq(line, "No route to host"@)
    ||| contains_seq(line, "getaddrinfo"@)
}

fn is_network_refusal(line: &[char]) -> (b: bool)
    ensures
        b == is_network_refusal_spec(line@),
{
    has_marker(line, "Network is unreachable") || has_marker(
        line,
        "Temporary failure in name resolution",
    ) || has_marker(line, "Name or service not known") || has_marker(
        line,
        "nodename nor servname provided",
    ) || has_marker(line, "Could not resolve host") || has_marker(
        line,
        "failed to lookup address information",
    ) || has_marker(line, "No route to host") || has_marker(line, "getaddrinfo")
}

/// The denial line `i` of the (trimmed) output reports, if any.
pub open spec fn denial_at(protected: Seq<Seq<char>>, ls: Seq<Seq<char>>, i: int) -> Option<DenialView> {
    let line = ls[i];
    if line.len() == 0 {
        None
    } else if is_network_refusal_spec(line) {
        let target = match host_from_line_spec(line) {
            Some(h) => h,
            None => match host_from_context_spec(ls, i) {
                Some(h) => h,
                None => UNNAMED_HOST@,
            },
        };
        Some(
            DenialView {
                kind: DenialKind::Network,
                target,
                verdict: if target == UNNAMED_HOST@ {
                    VerdictView::Unnamed
                } else {
                    VerdictView::Suggestable
                },
                evidence: crate::util::tail_seq(line, 200),
            },
        )
    } else {
        match filesystem_denial_spec(line) {
            Some(t) => Some(
                DenialView {
                    kind: DenialKind::Filesystem,
                    target: t,
                    verdict: classify_spec(protected, t),
                    evidence: crate::util::tail_seq(line, 200),
                },
            ),
            None => None,
        }
    }
}

/// `list` already holds a denial of this kind and target.
pub open spec fn has_denial(list: Seq<DenialView>, kind: DenialKind, target: Seq<char>) -> bool {
    exists|j: int| 0 <= j < list.len() && #[trigger] list[j].kind == kind && list[j].target == target
}

/// The denials of the first `n` lines, each kind and target once.
pub open spec fn denials_upto(protected: Seq<Seq<char>>, ls: Seq<Seq<char>>, n: int) -> Seq<DenialView>
    decreases n,
{
    if n <= 0 {
        seq![]
    } else {
        let prev = denials_upto(protected, ls, n - 1);
        match denial_at(protected, ls, n - 1) {
            Some(d) => if has_denial(prev, d.kind, d.target) {
                prev
            } else {
                prev.push(d)
            },
            None => prev,
        }
    }
}

/// A network denial that names its host.
pub open spec fn is_named_network(d: DenialView) -> bool {
    d.kind == DenialKind::Network && d.target != UNNAMED_HOST@
}

/// A network denial that does not.
pub open spec fn is_unnamed_network(d: DenialView) -> bool {
    d.kind == DenialKind::Network && d.target == UNNAMED_HOST@
}

/// `list` without its anonymous network denials.
pub open spec fn without_unnamed(list: Seq<DenialView>) -> Seq<DenialView>
    decreases list.len(),
{
    if list.len() == 0 {
        seq![]
    } else {
        let rest = without_unnamed(list.drop_last());
        if is_unnamed_network(list.last()) {
            rest
        } else {
            rest.push(list.last())
        }
    }
}

/// The lines of a command's output, trimmed.
pub open spec fn trimmed_lines(output: Seq<char>) -> Seq<Seq<char>> {
    crate::text::lines(output).map_values(|l: Seq<char>| trim_seq(l))
}

/// The denials a command's output reports, in the order first seen: a
/// traceback that names its host on one line and fails on another yields
/// both an anonymous and a named denial for one event, and the named one is
/// kept.
pub open spec fn analyze_spec(protected: Seq<Seq<char>>, output: Seq<char>) -> Seq<DenialView> {
    let ls = trimmed_lines(output);
    let found = denials_upto(protected, ls, ls.len() as int);
    if exists|j: int| 0 <= j < found.len() && #[trigger] is_named_network(found[j]) {
        without_unnamed(found)
    } else {
        found
    }
}

/// The denial log of one project: where it lives, and the paths that are
/// denied deliberately, so their denials are never suggested.
pub struct Receipts {
    pub path: String,
    pub protected: Vec<String>,
}

fn same_denial(e: &Denial, kind: DenialKind, target: &[char]) -> (b: bool)
    ensures
        b == (e@.kind == kind && e@.target == target@),
{
    let tv = chars_of(e.target.as_str());
    e.kind == kind && chars_eq(tv.as_slice(), target)
}

fn find_denial(list: &Vec<Denial>, kind: DenialKind, target: &[char]) -> (b: bool)
    ensures
        b == has_denial(denial_views(list@), kind, target@),
{
    let ghost v = denial_views(list@);
    let mut j: usize = 0;
    while j < list.len()
        invariant
            j <= list@.len(),
            v == denial_views(list@),
            forall|t: int| 0 <= t < j ==> !(v[t].kind == kind && v[t].target == target@),
        decreases list.len() - j,
    {
        if same_denial(&list[j], kind, target) {
            assert(v[j as int].kind == kind && v[j as int].target == target@);
            return true;
        }
        j = j + 1;
    }
    false
}

fn one_of_in(path: &[char], markers: &[&str]) -> (b: bool)
    ensures
        b == exists|i: int| 0 <= i < markers@.len() && #[trigger] contains_seq(path@, markers@[i]@),
{
    let mut i: usize = 0;
    while i < markers.len()
        invariant
            i <= markers@.len(),
            forall|k: int| 0 <= k < i ==> !contains_seq(path@, #[trigger] markers@[k]@),
        decreases markers.len() - i,
    {
        if has_marker(path, markers[i]) {
            return true;
        }
        i = i + 1;
    }
    false
}

impl Receipts {
    pub fn new(path: String, protected: Vec<String>) -> (r: Receipts)
        ensures
            r.path == path,
            r.protected == protected,
    {
        Receipts { path, protected }
    }

    /// Is widening the policy to allow this path a reasonable suggestion?
    pub fn classify_path(&self, path: &str) -> (v: Verdict)
        ensures
            v@ == classify_spec(strs(self.protected@), path@),
    {
        let mut i: usize = 0;
        while i < self.protected.len()
            invariant
                i <= self.protected@.len(),
                forall|k: int|
                    0 <= k < i ==> !#[trigger] path_starts_with(path@, strs(self.protected@)[k]),
            decreases self.protected.len() - i,
        {
            if path_under(path, self.protected[i].as_str()) {
                assert(path_starts_with(path@, strs(self.protected@)[i as int]));
                return Verdict::ByDesign(String::from_str(
                    "the environment is read-only while your code runs, so packages cannot be patched between runs. Change it with `senv add`/`senv sync`, not by widening the run policy.",
                ));
            }
            i = i + 1;
        }
        let never: [&str; 6] = [".ssh", ".aws", ".gnupg", ".netrc", ".git-credentials", ".pypirc"];
        assert(never@.map_values(|o: &str| o@) =~= credential_markers());
        let pv = chars_of(path);
        if one_of_in(pv.as_slice(), &never) {
            proof {
                let i = choose|i: int| 0 <= i < never@.len() && #[trigger] contains_seq(path@, never@[i]@);
                assert(credential_markers()[i] == never@[i]@);
            }
            return Verdict::ByDesign(String::from_str(
                "this is a credential path. senv will not suggest granting it; if a tool truly needs one, pass it as a declared secret instead.",
            ));
        }
        proof {
            if exists|i: int| 0 <= i < credential_markers().len() && #[trigger] contains_seq(path@, credential_markers()[i]) {
                let i = choose|i: int| 0 <= i < credential_markers().len() && #[trigger] contains_seq(path@, credential_markers()[i]);
                assert(credential_markers()[i] == never@[i]@);
            }
        }
        Verdict::Suggestable
    }

    /// The denial one line reports.
    fn denial_on(&self, lines: &Vec<Vec<char>>, i: usize) -> (r: Option<Denial>)
        requires
            i < lines@.len(),
        ensures
            r matches Some(d) ==> denial_at(
                strs(self.protected@),
                lines@.map_values(|l: Vec<char>| l@),
                i as int,
            ) == Some(d@),
            r is None ==> denial_at(
                strs(self.protected@),
                lines@.map_values(|l: Vec<char>| l@),
                i as int,
            ) is None,
    {
        let ghost ls = lines@.map_values(|l: Vec<char>| l@);
        let line = &lines[i];
        assert(ls[i as int] == line@);
        if line.len() == 0 {
            return None;
        }
        let evidence = crate::util::tail(string_of(line.as_slice()).as_str(), 200);
        if is_network_refusal(line.as_slice()) {
            let target = match host_from_line(line.as_slice()) {
                Some(h) => h,
                None => match host_from_context(lines, i) {
                    Some(h) => h,
                    None => chars_of(UNNAMED_HOST),
                },
            };
            let unnamed = chars_of(UNNAMED_HOST);
            let verdict = if chars_eq(target.as_slice(), unnamed.as_slice()) {
                Verdict::Unnamed
            } else {
                Verdict::Suggestable
            };
            let d = Denial {
                kind: DenialKind::Network,
                target: string_of(target.as_slice()),
                verdict,
                evidence,
            };
            return Some(d);
        }
        match filesystem_denial(line.as_slice()) {
            Some(t) => {
                let target = string_of(t.as_slice());
                let verdict = self.classify_path(target.as_str());
                Some(Denial { kind: DenialKind::Filesystem, target, verdict, evidence })
            },
            None => None,
        }
    }

    /// Infer denials from a command's output, each kind and target once, in
    /// the order first seen.
    pub fn analyze(&self, output: &str) -> (r: Vec<Denial>)
        ensures
            denial_views(r@) == analyze_spec(strs(self.protected@), output@),
    {
        let ov = chars_of(output);
        let raw = crate::text::split_lines(ov.as_slice());
        let mut lines: Vec<Vec<char>> = Vec::new();
        let mut k: usize = 0;
        while k < raw.len()
            invariant
                k <= raw@.len(),
                raw@.len() == crate::text::lines(output@).len(),
                forall|t: int| 0 <= t < raw@.len() ==> #[trigger] raw@[t]@ == crate::text::lines(output@)[t],
                lines@.len() == k,
                forall|t: int| 0 <= t < k ==> #[trigger] lines@[t]@ == trimmed_lines(output@)[t],
            decreases raw.len() - k,
        {
            lines.push(trim(raw[k].as_slice()));
            k = k + 1;
        }
        let ghost ls = lines@.map_values(|l: Vec<char>| l@);
        assert(ls =~= trimmed_lines(output@));
        let ghost prot = strs(self.protected@);
        let mut found: Vec<Denial> = Vec::new();
        let mut i: usize = 0;
        while i < lines.len()
            invariant
                i <= lines@.len(),
                ls == lines@.map_values(|l: Vec<char>| l@),
                prot == strs(self.protected@),
                denial_views(found@) == denials_upto(prot, ls, i as int),
            decreases lines.len() - i,
        {
            let ghost before = found@;
            match self.denial_on(&lines, i) {
                Some(d) => {
                    let tv = chars_of(d.target.as_str());
                    if !find_denial(&found, d.kind, tv.as_slice()) {
                        found.push(d);
                        assert(denial_views(found@) =~= denial_views(before).push(d@));
                    }
                },
                None => {},
            }
            i = i + 1;
        }
        let ghost all = denial_views(found@);
        let mut named = false;
        let mut j: usize = 0;
        while j < found.len()
            invariant
                j <= found@.len(),
                all == denial_views(found@),
                named == exists|t: int| 0 <= t < j && #[trigger] is_named_network(all[t]),
            decreases found.len() - j,
        {
            let unnamed = chars_of(UNNAMED_HOST);
            let tv = chars_of(found[j].target.as_str());
            if found[j].kind == DenialKind::Network && !chars_eq(tv.as_slice(), unnamed.as_slice()) {
                assert(is_named_network(all[j as int]));
                named = true;
            }
            j = j + 1;
        }
        if !named {
            return found;
        }
        let mut kept: Vec<Denial> = Vec::new();
        let mut j: usize = 0;
        while j < found.len()
            invariant
                j <= found@.len(),
                all == denial_views(found@),
                denial_views(kept@) == without_unnamed(all.take(j as int)),
            decreases found.len() - j,
        {
            let unnamed = chars_of(UNNAMED_HOST);
            let tv = chars_of(found[j].target.as_str());
            proof {
                assert(all.take(j + 1).drop_last() =~= all.take(j as int));
                assert(all.take(j + 1).last() == all[j as int]);
            }
            if !(found[j].kind == DenialKind::Network && chars_eq(tv.as_slice(), unnamed.as_slice())) {
                let ghost before = kept@;
                kept.push(found[j].copy());
                assert(denial_views(kept@) =~= denial_views(before).push(all[j as int]));
            }
            j = j + 1;
        }
        assert(all.take(found@.len() as int) =~= all);
        kept
    }
}

/// No two denials of `list` share a kind and a target.
pub open spec fn distinct_denials(list: Seq<DenialView>) -> bool {
    forall|i: int, j: int|
        0 <= i < j < list.len() ==> !(#[trigger] list[i].kind == #[trigger] list[j].kind
            && list[i].target == list[j].target)
}

/// A denial's verdict is `Unnamed` exactly when it is a network denial whose
/// host the error did not name.
pub open spec fn unnamed_iff_anonymous(d: DenialView) -> bool {
    (d.verdict is Unnamed) <==> is_unnamed_network(d)
}

proof fn lemma_denials_upto_shape(protected: Seq<Seq<char>>, ls: Seq<Seq<char>>, n: int)
    ensures
        distinct_denials(denials_upto(protected, ls, n)),
        forall|i: int|
            0 <= i < denials_upto(protected, ls, n).len() ==> unnamed_iff_anonymous(
                #[trigger] denials_upto(protected, ls, n)[i],
            ),
    decreases n,
{
    if n > 0 {
        lemma_denials_upto_shape(protected, ls, n - 1);
        let prev = denials_upto(protected, ls, n - 1);
        match denial_at(protected, ls, n - 1) {
            Some(d) => {
                assert(unnamed_iff_anonymous(d));
                if !has_denial(prev, d.kind, d.target) {
                    let next = prev.push(d);
                    assert forall|i: int, j: int| 0 <= i < j < next.len() implies !(
                    #[trigger] next[i].kind == #[trigger] next[j].kind && next[i].target
                        == next[j].target) by {
                        if j == prev.len() {
                            assert(next[i] == prev[i]);
                            assert(!(prev[i].kind == d.kind && prev[i].target == d.target));
                        } else {
                            assert(next[i] == prev[i] && next[j] == prev[j]);
                        }
                    }
                    assert forall|i: int| 0 <= i < next.len() implies unnamed_iff_anonymous(
                        #[trigger] next[i],
                    ) by {
                        if i < prev.len() {
                            assert(next[i] == prev[i]);
                        }
                    }
                }
            },
            None => {},
        }
    }
}

proof fn lemma_without_unnamed_shape(list: Seq<DenialView>)
    requires
        distinct_denials(list),
        forall|i: int| 0 <= i < list.len() ==> unnamed_iff_anonymous(#[trigger] list[i]),
    ensures
        distinct_denials(without_unnamed(list)),
        forall|i: int|
            0 <= i < without_unnamed(list).len() ==> unnamed_iff_anonymous(
                #[trigger] without_unnamed(list)[i],
            ) && !is_unnamed_network(without_unnamed(list)[i]),
        forall|i: int|
            0 <= i < without_unnamed(list).len() ==> exists|k: int|
                0 <= k < list.len() && #[trigger] without_unnamed(list)[i] == list[k],
    decreases list.len(),
{
    if list.len() > 0 {
        let init = list.drop_last();
        assert forall|i: int, j: int| 0 <= i < j < init.len() implies !(#[trigger] init[i].kind
            == #[trigger] init[j].kind && init[i].target == init[j].target) by {
            assert(init[i] == list[i] && init[j] == list[j]);
        }
        assert forall|i: int| 0 <= i < init.len() implies unnamed_iff_anonymous(#[trigger] init[i]) by {
            assert(init[i] == list[i]);
        }
        lemma_without_unnamed_shape(init);
        let rest = without_unnamed(init);
        let last = list.last();
        if !is_unnamed_network(last) {
            let next = rest.push(last);
            assert(unnamed_iff_anonymous(list[list.len() - 1]));
            assert forall|i: int, j: int| 0 <= i < j < next.len() implies !(
            #[trigger] next[i].kind == #[trigger] next[j].kind && next[i].target
                == next[j].target) by {
                assert(next[i] == rest[i]);
                if j == rest.len() {
                    let k = choose|k: int| 0 <= k < init.len() && rest[i] == init[k];
                    assert(init[k] == list[k]);
                    assert(list[k].kind == list[list.len() - 1].kind ==> list[k].target
                        != list[list.len() - 1].target);
                } else {
                    assert(next[j] == rest[j]);
                }
            }
            assert forall|i: int| 0 <= i < next.len() implies exists|k: int|
                0 <= k < list.len() && #[trigger] next[i] == list[k] by {
                if i < rest.len() {
                    let k = choose|k: int| 0 <= k < init.len() && rest[i] == init[k];
                    assert(init[k] == list[k]);
                    assert(next[i] == list[k]);
                } else {
                    assert(next[i] == list[list.len() - 1]);
                }
            }
            assert forall|i: int| 0 <= i < next.len() implies unnamed_iff_anonymous(
                #[trigger] next[i],
            ) && !is_unnamed_network(next[i]) by {
                if i < rest.len() {
                    assert(next[i] == rest[i]);
                }
            }
        } else {
            assert forall|i: int| 0 <= i < rest.len() implies exists|k: int|
                0 <= k < list.len() && #[trigger] rest[i] == list[k] by {
                let k = choose|k: int| 0 <= k < init.len() && rest[i] == init[k];
                assert(init[k] == list[k]);
            }
        }
    }
}

/// What [`Receipts::analyze`] returns holds each kind and target once; a
/// denial is `Unnamed` exactly when it is a network denial on the unnamed
/// host; and once some network denial names its host, no unnamed one is
/// left.
pub proof fn lemma_analyzed_denials(protected: Seq<Seq<char>>, output: Seq<char>)
    ensures
        distinct_denials(analyze_spec(protected, output)),
        forall|i: int|
            0 <= i < analyze_spec(protected, output).len() ==> ((
            #[trigger] analyze_spec(protected, output)[i]).verdict is Unnamed <==> (
            analyze_spec(protected, output)[i].kind == DenialKind::Network
                && analyze_spec(protected, output)[i].target == UNNAMED_HOST@)),
        (exists|j: int|
            0 <= j < analyze_spec(protected, output).len() && #[trigger] is_named_network(
                analyze_spec(protected, output)[j],
            )) ==> forall|i: int|
            0 <= i < analyze_spec(protected, output).len() ==> !is_unnamed_network(
                #[trigger] analyze_spec(protected, output)[i],
            ),
{
    let ls = trimmed_lines(output);
    let found = denials_upto(protected, ls, ls.len() as int);
    lemma_denials_upto_shape(protected, ls, ls.len() as int);
    if exists|j: int| 0 <= j < found.len() && #[trigger] is_named_network(found[j]) {
        lemma_without_unnamed_shape(found);
    }
    let d = analyze_spec(protected, output);
    assert forall|i: int| 0 <= i < d.len() implies unnamed_iff_anonymous(#[trigger] d[i]) by {}
}

/// The phrases by which resolvers and sockets say the network was refused.
pub open spec fn refusal_markers() -> Seq<Seq<char>> {
    seq![
        "Network is unreachable"@,
        "Temporary failure in name resolution"@,
        "Name or service not known"@,
        "nodename nor servname provided"@,
        "Could not resolve host"@,
        "failed to lookup address information"@,
        "No route to host"@,
        "getaddrinfo"@,
    ]
}

proof fn lemma_markers_shape()
    ensures
        forall|k: int|
            0 <= k < refusal_markers().len() ==> (#[trigger] refusal_markers()[k]).len() > 0
                && !is_ws(refusal_markers()[k][0]) && !is_ws(
                refusal_markers()[k][refusal_markers()[k].len() - 1],
            ),
{
    reveal_strlit("Network is unreachable");
    reveal_strlit("Temporary failure in name resolution");
    reveal_strlit("Name or service not known");
    reveal_strlit("nodename nor servname provided");
    reveal_strlit("Could not resolve host");
    reveal_strlit("failed to lookup address information");
    reveal_strlit("No route to host");
    reveal_strlit("getaddrinfo");
}

proof fn lemma_trim_end_ws(s: Seq<char>, lo: int, j: int)
    requires
        0 <= lo <= j <= s.len(),
    ensures
        forall|t: int| crate::text::trim_end_from(s, lo, j) <= t < j ==> is_ws(#[trigger] s[t]),
    decreases j - lo,
{
    if lo < j && is_ws(s[j - 1]) {
        lemma_trim_end_ws(s, lo, j - 1);
    }
}

/// Trimming keeps every phrase that neither begins nor ends with whitespace.
proof fn lemma_trim_keeps(l: Seq<char>, m: Seq<char>)
    requires
        m.len() > 0,
        !is_ws(m[0]),
        !is_ws(m[m.len() - 1]),
        contains_seq(l, m),
    ensures
        contains_seq(trim_seq(l), m),
{
    crate::text::lemma_find_from(l, m, 0);
    let p = find_from(l, m, 0)->0;
    crate::text::lemma_skip_ws(l, 0);
    let lo = crate::text::skip_ws(l, 0);
    crate::text::lemma_trim_end(l, lo, l.len() as int);
    lemma_trim_end_ws(l, lo, l.len() as int);
    let hi = crate::text::trim_end_from(l, lo, l.len() as int);
    let n = m.len() as int;
    assert(l.subrange(p, p + n) == m);
    if p < lo {
        assert(l[p] == m[0]);
        assert(is_ws(l[p]));
    }
    if p + n > hi {
        assert(l[p + n - 1] == m[n - 1]);
        assert(is_ws(l[p + n - 1]));
    }
    let t = trim_seq(l);
    assert(t == l.subrange(lo, hi));
    assert(t.subrange(p - lo, p - lo + n) =~= m);
    crate::text::lemma_find_from(t, m, 0);
    assert(crate::text::matches_at(t, m, p - lo));
}

proof fn lemma_network_found(protected: Seq<Seq<char>>, ls: Seq<Seq<char>>, n: int, i: int)
    requires
        0 <= i < n <= ls.len(),
        ls[i].len() > 0,
        is_network_refusal_spec(ls[i]),
    ensures
        exists|j: int|
            0 <= j < denials_upto(protected, ls, n).len() && (#[trigger] denials_upto(
                protected,
                ls,
                n,
            )[j]).kind == DenialKind::Network,
    decreases n,
{
    let prev = denials_upto(protected, ls, n - 1);
    let cur = denials_upto(protected, ls, n);
    if n == i + 1 {
        let d = denial_at(protected, ls, i)->0;
        if has_denial(prev, d.kind, d.target) {
            let j = choose|j: int| 0 <= j < prev.len() && #[trigger] prev[j].kind == d.kind && prev[j].target == d.target;
            assert(cur[j] == prev[j]);
        } else {
            assert(cur[prev.len() as int] == d);
        }
    } else {
        lemma_network_found(protected, ls, n - 1, i);
        let j = choose|j: int| 0 <= j < prev.len() && (#[trigger] prev[j]).kind == DenialKind::Network;
        assert(cur[j] == prev[j]);
    }
}

proof fn lemma_without_unnamed_keeps(list: Seq<DenialView>, j: int)
    requires
        0 <= j < list.len(),
        !is_unnamed_network(list[j]),
    ensures
        without_unnamed(list).contains(list[j]),
    decreases list.len(),
{
    let rest = without_unnamed(list.drop_last());
    if j == list.len() - 1 {
        assert(without_unnamed(list) == rest.push(list[j]));
        assert(without_unnamed(list)[rest.len() as int] == list[j]);
    } else {
        assert(list.drop_last()[j] == list[j]);
        lemma_without_unnamed_keeps(list.drop_last(), j);
        let k = choose|k: int| 0 <= k < rest.len() && rest[k] == list[j];
        let all = without_unnamed(list);
        assert(all == rest || all == rest.push(list.last()));
        assert(all[k] == list[j]);
    }
}

/// A line of a command's output that carries any of the network-refusal
/// phrases yields a network denial: a refused connection or lookup is never
/// left out of the receipt.
pub proof fn lemma_network_refusal_reported(protected: Seq<Seq<char>>, output: Seq<char>, i: int, k: int)
    requires
        0 <= i < crate::text::lines(output).len(),
        0 <= k < refusal_markers().len(),
        contains_seq(crate::text::lines(output)[i], refusal_markers()[k]),
    ensures
        exists|j: int|
            0 <= j < analyze_spec(protected, output).len() && (#[trigger] analyze_spec(
                protected,
                output,
            )[j]).kind == DenialKind::Network,
{
    lemma_markers_shape();
    let m = refusal_markers()[k];
    let ls = trimmed_lines(output);
    let raw = crate::text::lines(output)[i];
    lemma_trim_keeps(raw, m);
    assert(ls[i] == trim_seq(raw));
    crate::text::lemma_find_from(ls[i], m, 0);
    reveal_strlit("Network is unreachable");
    reveal_strlit("Temporary failure in name resolution");
    reveal_strlit("Name or service not known");
    reveal_strlit("nodename nor servname provided");
    reveal_strlit("Could not resolve host");
    reveal_strlit("failed to lookup address information");
    reveal_strlit("No route to host");
    reveal_strlit("getaddrinfo");
    assert(is_network_refusal_spec(ls[i]));
    assert(ls[i].len() > 0);
    lemma_network_found(protected, ls, ls.len() as int, i);
    let found = denials_upto(protected, ls, ls.len() as int);
    let j = choose|j: int| 0 <= j < found.len() && (#[trigger] found[j]).kind == DenialKind::Network;
    let r = analyze_spec(protected, output);
    if exists|q: int| 0 <= q < found.len() && #[trigger] is_named_network(found[q]) {
        let q = choose|q: int| 0 <= q < found.len() && #[trigger] is_named_network(found[q]);
        lemma_without_unnamed_keeps(found, q);
        let t = choose|t: int| 0 <= t < r.len() && r[t] == found[q];
        assert(r[t].kind == DenialKind::Network);
    } else {
        assert(r[j].kind == DenialKind::Network);
    }
}

// ── redaction ──────────────────────────────────────────────────────────────

/// What stands in for a declared secret value.
pub open spec fn redaction_mark() -> Seq<char> {
    "«redacted»"@
}

/// `text` with each declared value of at least four bytes replaced, value
/// by value in order.
pub open spec fn strip_declared_spec(text: Seq<char>, values: Seq<Seq<char>>) -> Seq<char>
    decreases values.len(),
{
    if values.len() == 0 {
        text
    } else {
        let prev = strip_declared_spec(text, values.drop_last());
        let v = values.last();
        if byte_len(v) >= 4 {
            crate::text::replace_seq(prev, v, redaction_mark())
        } else {
            prev
        }
    }
}

/// Remove declared secret values, verbatim, from text bound for a receipt.
/// (The engine's scanner for undeclared credentials runs over the result.)
pub fn strip_declared(text: &str, values: &[String]) -> (r: String)
    ensures
        r@ == strip_declared_spec(text@, strs(values@)),
{
    let mut out = chars_of(text);
    let mark = chars_of("«redacted»");
    let mut i: usize = 0;
    while i < values.len()
        invariant
            i <= values@.len(),
            mark@ == redaction_mark(),
            out@ == strip_declared_spec(text@, strs(values@).take(i as int)),
        decreases values.len() - i,
    {
        proof {
            assert(strs(values@).take(i + 1).drop_last() =~= strs(values@).take(i as int));
            assert(strs(values@).take(i + 1).last() == values@[i as int]@);
        }
        let v = chars_of(values[i].as_str());
        if values[i].as_str().as_bytes().len() >= 4 {
            proof {
                if v.len() == 0 {
                    assert(byte_len(v@) == 0);
                }
            }
            out = crate::text::replace_all(out.as_slice(), v.as_slice(), mark.as_slice());
        }
        i = i + 1;
    }
    assert(strs(values@).take(values@.len() as int) =~= strs(values@));
    string_of(out.as_slice())
}

/// `u` holds neither of the redaction mark's brackets.
pub open spec fn mark_free(u: Seq<char>) -> bool {
    forall|t: int| 0 <= t < u.len() ==> u[t] != '«' && u[t] != '»'
}

/// An occurrence of a bracket-free `u` that the mark does not contain lies
/// wholly on one side of the mark.
proof fn lemma_occurrence_beside_mark(a: Seq<char>, b: Seq<char>, u: Seq<char>, j: int)
    requires
        mark_free(u),
        u.len() > 0,
        !crate::text::contains_seq(redaction_mark(), u),
        crate::text::matches_at(a + redaction_mark() + b, u, j),
    ensures
        crate::text::matches_at(a, u, j) || crate::text::matches_at(
            b,
            u,
            j - a.len() - redaction_mark().len(),
        ),
{
    reveal_strlit("«redacted»");
    let m = redaction_mark();
    let x = a + m + b;
    let la = a.len() as int;
    let lm = m.len() as int;
    let n = u.len() as int;
    assert(lm == 10);
    assert(m[0] == '«' && m[9] == '»');
    assert(x.subrange(j, j + n) == u);
    if j + n <= la {
        assert(x.subrange(j, j + n) =~= a.subrange(j, j + n));
    } else if j >= la + lm {
        assert(x.subrange(j, j + n) =~= b.subrange(j - la - lm, j - la - lm + n));
    } else if j < la {
        assert(x[la] == m[0]);
        assert(u[la - j] == x.subrange(j, j + n)[la - j]);
        assert(u[la - j] == '«');
    } else if j + n <= la + lm {
        assert(m.subrange(j - la, j - la + n) =~= x.subrange(j, j + n));
        assert(crate::text::matches_at(m, u, j - la));
        crate::text::lemma_find_from(m, u, 0);
    } else {
        assert(x[la + lm - 1] == m[lm - 1]);
        assert(u[la + lm - 1 - j] == x.subrange(j, j + n)[la + lm - 1 - j]);
        assert(u[la + lm - 1 - j] == '»');
    }
}

/// Replacing `p` by the mark leaves no occurrence of `p`, and creates no
/// occurrence of another bracket-free value the mark does not contain.
proof fn lemma_replaced_occurrence(s: Seq<char>, p: Seq<char>, u: Seq<char>, i: int, j: int)
    requires
        0 <= i <= s.len(),
        p.len() > 0,
        mark_free(u),
        u.len() > 0,
        !crate::text::contains_seq(redaction_mark(), u),
        crate::text::matches_at(crate::text::replace_from(s, p, redaction_mark(), i), u, j),
    ensures
        u != p,
        exists|k: int| i <= k && crate::text::matches_at(s, u, k),
    decreases s.len() + 1 - i,
{
    let m = redaction_mark();
    crate::text::lemma_find_from(s, p, i);
    match crate::text::find_from(s, p, i) {
        Some(k) => {
            let a = s.subrange(i, k);
            let rest = crate::text::replace_from(s, p, m, k + p.len());
            lemma_occurrence_beside_mark(a, rest, u, j);
            if crate::text::matches_at(a, u, j) {
                assert(s.subrange(i + j, i + j + u.len()) =~= a.subrange(j, j + u.len()));
                assert(crate::text::matches_at(s, u, i + j));
            } else {
                lemma_replaced_occurrence(s, p, u, k + p.len(), j - a.len() - m.len());
            }
        },
        None => {
            let a = s.subrange(i, s.len() as int);
            assert(s.subrange(i + j, i + j + u.len()) =~= a.subrange(j, j + u.len()));
            assert(crate::text::matches_at(s, u, i + j));
        },
    }
}

proof fn lemma_absent_after_replace(s: Seq<char>, p: Seq<char>, u: Seq<char>)
    requires
        p.len() > 0,
        mark_free(u),
        u.len() > 0,
        !crate::text::contains_seq(redaction_mark(), u),
        u == p || !crate::text::contains_seq(s, u),
    ensures
        !crate::text::contains_seq(crate::text::replace_seq(s, p, redaction_mark()), u),
{
    let r = crate::text::replace_seq(s, p, redaction_mark());
    crate::text::lemma_find_from(r, u, 0);
    crate::text::lemma_find_from(s, u, 0);
    if let Some(j) = crate::text::find_from(r, u, 0) {
        lemma_replaced_occurrence(s, p, u, 0, j);
    }
}

/// No declared value of at least four bytes survives [`strip_declared`],
/// as long as none holds a bracket of the mark or occurs inside the mark:
/// such a value could be left, or made anew, by the mark itself.
pub proof fn lemma_declared_values_stripped(text: Seq<char>, values: Seq<Seq<char>>)
    requires
        forall|i: int|
            0 <= i < values.len() && byte_len(#[trigger] values[i]) >= 4 ==> mark_free(values[i])
                && !crate::text::contains_seq(redaction_mark(), values[i]),
    ensures
        forall|i: int|
            0 <= i < values.len() && byte_len(#[trigger] values[i]) >= 4
                ==> !crate::text::contains_seq(strip_declared_spec(text, values), values[i]),
    decreases values.len(),
{
    if values.len() > 0 {
        let init = values.drop_last();
        assert forall|i: int| 0 <= i < init.len() && byte_len(#[trigger] init[i]) >= 4 implies mark_free(
            init[i],
        ) && !crate::text::contains_seq(redaction_mark(), init[i]) by {
            assert(init[i] == values[i]);
        }
        lemma_declared_values_stripped(text, init);
        let prev = strip_declared_spec(text, init);
        let v = values.last();
        assert forall|i: int| 0 <= i < values.len() && byte_len(#[trigger] values[i]) >= 4 implies !crate::text::contains_seq(
            strip_declared_spec(text, values),
            values[i],
        ) by {
            let u = values[i];
            crate::util::lemma_byte_len_zero(u);
            if i < init.len() {
                assert(init[i] == u);
            }
            if byte_len(v) >= 4 {
                crate::util::lemma_byte_len_zero(v);
                lemma_absent_after_replace(prev, v, u);
            }
        }
    }
}

/// What a receipt keeps of clean output stays clean: a value that does not
/// occur in the output, and does not begin with the ellipsis the tail is
/// marked with, does not occur in the stored tail either.
pub proof fn lemma_stored_tail_keeps_out(clean: Seq<char>, n: int, u: Seq<char>)
    requires
        0 <= n,
        u.len() > 0,
        u[0] != '…',
        !crate::text::contains_seq(clean, u),
    ensures
        !crate::text::contains_seq(crate::util::tail_seq(crate::text::trim_end_seq(clean), n), u),
{
    let e = crate::text::trim_end_from(clean, 0, clean.len() as int);
    crate::text::lemma_trim_end(clean, 0, clean.len() as int);
    let t = crate::text::trim_end_seq(clean);
    let r = crate::util::tail_seq(t, n);
    crate::text::lemma_find_from(r, u, 0);
    crate::text::lemma_find_from(clean, u, 0);
    if let Some(p) = crate::text::find_from(r, u, 0) {
        let m = u.len() as int;
        if crate::util::byte_len(t) <= n {
            assert(clean.subrange(p, p + m) =~= t.subrange(p, p + m));
            assert(crate::text::matches_at(clean, u, p));
        } else {
            crate::util::lemma_tail_bounded(t, n);
            let j = crate::util::tail_start(t, n, 0);
            let rest = r.drop_first();
            assert(rest.is_suffix_of(t));
            let off = t.len() - rest.len();
            if p == 0 {
                assert(r.subrange(0, m)[0] == u[0]);
            } else {
                assert(rest =~= t.subrange(off, t.len() as int));
                assert(t =~= clean.subrange(0, e));
                assert forall|q: int| 0 <= q < m implies #[trigger] clean.subrange(off + p - 1, off + p - 1 + m)[q] == r.subrange(p, p + m)[q] by {
                    assert(r[p + q] == rest[p - 1 + q]);
                    assert(rest[p - 1 + q] == t[off + p - 1 + q]);
                }
                assert(clean.subrange(off + p - 1, off + p - 1 + m) =~= r.subrange(p, p + m));
                assert(crate::text::matches_at(clean, u, off + p - 1));
            }
        }
    }
}

// ── the record of one command ──────────────────────────────────────────────

/// What a receipt says of a command's network.
#[derive(Debug, Clone)]
pub struct NetRecord {
    /// `deny`, `host`, or `allowlist`.
    pub mode: String,
    pub egress: Vec<String>,
    /// Populated only by tiers that observe every request.
    pub allowed: Option<u64>,
    pub denied: Option<u64>,
}

/// One line of a project's receipts: one command, how it was confined and
/// how it ended.
#[derive(Debug, Clone)]
pub struct Record {
    /// Human-readable UTC, because people read these.
    pub ts: String,
    pub ts_ms: u64,
    pub phase: String,
    pub tier: String,
    pub policy_digest: String,
    pub argv: Vec<String>,
    pub exit_code: Option<i32>,
    pub timed_out: bool,
    pub wall_ms: u64,
    pub cpu_ms: Option<u64>,
    pub max_rss_kb: Option<i64>,
    pub net: NetRecord,
    pub denials: Vec<Denial>,
    /// Policy facts announced at plan time, so "was this run wide open?" is
    /// answerable later.
    pub notes: Vec<String>,
    /// Secret grants delivered, by name and fingerprint. Never values.
    pub secrets: Vec<String>,
    /// Redacted tail of the command's output, kept only when it failed.
    pub output_tail: Option<String>,
}

/// Everything the receipt needs about how a command finished.
pub struct Completion<'a> {
    pub argv: &'a [String],
    pub exit_code: Option<i32>,
    pub timed_out: bool,
    pub wall_ms: u64,
    pub cpu_ms: Option<u64>,
    pub max_rss_kb: Option<i64>,
    pub output: &'a str,
    pub secrets: Vec<String>,
    /// Exact secret values to strip before anything is written.
    pub redactions: &'a [String],
}

/// The texts of notes.
pub open spec fn note_texts(v: Seq<crate::policy::Note>) -> Seq<Seq<char>> {
    v.map_values(|n: crate::policy::Note| n.text@)
}

/// The texts of notes, in order.
pub fn note_texts_of(notes: &[crate::policy::Note]) -> (r: Vec<String>)
    ensures
        strs(r@) == note_texts(notes@),
{
    let mut r: Vec<String> = Vec::new();
    let mut i: usize = 0;
    while i < notes.len()
        invariant
            i <= notes.len(),
            strs(r@) == note_texts(notes@.take(i as int)),
        decreases notes.len() - i,
    {
        let t = crate::text::chars_of(notes[i].text.as_str());
        r.push(string_of(t.as_slice()));
        assert(note_texts(notes@.take(i + 1)) =~= note_texts(notes@.take(i as int)).push(
            notes@[i as int].text@,
        ));
        assert(strs(r@) =~= note_texts(notes@.take(i + 1)));
        i = i + 1;
    }
    assert(notes@.take(notes.len() as int) =~= notes@);
    r
}

impl Receipts {
    /// The receipt of a finished command run under `profile`, stamped
    /// `ts_ms`. `clean` is the command's output with secrets redacted — the
    /// declared values and whatever the engine's credential scanner finds —
    /// which is what the denials are read from and what a failure keeps the
    /// tail of. Appending it is the caller's business.
    pub fn record(
        &self,
        ts_ms: u64,
        phase: crate::policy::Phase,
        tier: crate::config::IsolationClaim,
        policy_digest: &str,
        profile: &crate::policy::PhaseProfile,
        notes: &[crate::policy::Note],
        done: Completion,
        clean: &str,
    ) -> (r: Record)
        ensures
            r.ts@ == crate::util::format_utc_seq(ts_ms as nat),
            r.ts_ms == ts_ms,
            r.phase@ == phase.name(),
            r.tier@ == tier.name(),
            r.policy_digest@ == policy_digest@,
            r.argv@ == done.argv@,
            r.exit_code == done.exit_code,
            r.timed_out == done.timed_out,
            r.wall_ms == done.wall_ms,
            r.cpu_ms == done.cpu_ms,
            r.max_rss_kb == done.max_rss_kb,
            r.net.mode@ == crate::exec::net_label(profile.net_mode, profile.net_egress@),
            r.net.egress@ == profile.net_egress@,
            r.net.allowed is None,
            r.net.denied is None,
            denial_views(r.denials@) == analyze_spec(strs(self.protected@), clean@),
            strs(r.notes@) == note_texts(notes@),
            r.secrets == done.secrets,
            (done.exit_code == Some(0i32) && !done.timed_out) ==> r.output_tail is None,
            !(done.exit_code == Some(0i32) && !done.timed_out) ==> (r.output_tail matches Some(t)
                && t@ == crate::util::tail_seq(
                crate::text::trim_end_seq(clean@),
                crate::exec::OUTPUT_TAIL_BYTES as int,
            )),
    {
        let denials = self.analyze(clean);
        let mode = crate::exec::net_mode_label(profile.net_mode, &profile.net_egress);
        Record {
            ts: crate::util::format_utc(ts_ms),
            ts_ms,
            phase: String::from_str(phase.as_str()),
            tier: String::from_str(tier.as_str()),
            policy_digest: String::from_str(policy_digest),
            argv: crate::text::clone_strings(done.argv),
            exit_code: done.exit_code,
            timed_out: done.timed_out,
            wall_ms: done.wall_ms,
            cpu_ms: done.cpu_ms,
            max_rss_kb: done.max_rss_kb,
            net: NetRecord {
                mode: String::from_str(mode),
                egress: crate::text::clone_strings(profile.net_egress.as_slice()),
                allowed: None,
                denied: None,
            },
            denials,
            notes: note_texts_of(notes),
            secrets: done.secrets,
            output_tail: crate::exec::output_tail(done.exit_code, done.timed_out, clean),
        }
    }
}

} // verus!
