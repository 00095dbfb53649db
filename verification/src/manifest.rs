//! What senv reads out of `pyproject.toml`.
//!
//! The TOML grammar is the `toml` crate's: senv never parses TOML itself.
//! The calls into it are declared here, each with the contract senv relies
//! on.

use vstd::prelude::*;
use crate::text::opt_str;

verus! {

/// What the chain `toml::from_str` (into a `toml::Value`), `Value::get` with
/// `key`, then the derived `Debug` gives: the rendering of the value under
/// `key` in the TOML document `text` (tables ordered by key); `None` when
/// the document does not parse or has no such key.
pub uninterp spec fn toml_rendering(text: Seq<char>, key: Seq<char>) -> Option<Seq<char>>;

/// What the chain `toml::from_str`, `Value::get` with `key`, `Value::get`
/// with `sub`, then the derived `Debug` gives: the rendering of the value
/// under `key`, then `sub`, in the TOML document `text`; `None` when the
/// document does not parse or either key is absent (or the value under
/// `key` is not a table).
pub uninterp spec fn toml_nested_rendering(text: Seq<char>, key: Seq<char>, sub: Seq<char>) -> Option<Seq<char>>;

/// Renders the value under `key` of a TOML document.
///
/// Trusted: `toml::from_str` parses the document into a `toml::Value`,
/// `Value::get` looks the key up, and `Debug` renders the value; the result
/// depends on the text and the key alone and is only named.
#[verifier::external_body]
pub(crate) fn rendering_at(text: &str, key: &str) -> (r: Option<String>)
    ensures
        opt_str(r) == toml_rendering(text@, key@),
{
    let parsed: toml::Value = toml::from_str(text).ok()?;
    Some(format!("{:?}", parsed.get(key)?))
}

/// Renders the value under `key`, then `sub`, of a TOML document.
///
/// Trusted: as [`rendering_at`], with a second `Value::get` on the inner
/// value; the result is only named.
#[verifier::external_body]
pub(crate) fn nested_rendering_at(text: &str, key: &str, sub: &str) -> (r: Option<String>)
    ensures
        opt_str(r) == toml_nested_rendering(text@, key@, sub@),
{
    let parsed: toml::Value = toml::from_str(text).ok()?;
    Some(format!("{:?}", parsed.get(key)?.get(sub)?))
}

} // verus!
