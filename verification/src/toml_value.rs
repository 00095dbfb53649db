//! A parsed TOML document, held as plain values.
//!
//! The `toml` crate parses; what senv reads of the result lives here, in a
//! type of its own that Verus can see into.

use vstd::prelude::*;
use crate::text::str_eq;

verus! {

/// A TOML value. Tables keep their entries in the order `toml` hands them
/// out (ascending by key); a float is kept as its `Debug` rendering, and
/// compared as the `f64` it names ([`tree_eq`]).
pub enum TomlValue {
    Str(String),
    Int(i64),
    Float(String),
    Bool(bool),
    Datetime(String),
    Array(Vec<TomlValue>),
    Table(Vec<(String, TomlValue)>),
}

/// The mathematical form of a [`TomlValue`].
pub enum TomlTree {
    Str(Seq<char>),
    Int(int),
    Float(Seq<char>),
    Bool(bool),
    Datetime(Seq<char>),
    Array(Seq<TomlTree>),
    Table(Seq<(Seq<char>, TomlTree)>),
}

impl TomlValue {
    pub open spec fn tree(self) -> TomlTree
        decreases self,
    {
        match self {
            TomlValue::Str(s) => TomlTree::Str(s@),
            TomlValue::Int(i) => TomlTree::Int(i as int),
            TomlValue::Float(s) => TomlTree::Float(s@),
            TomlValue::Bool(b) => TomlTree::Bool(b),
            TomlValue::Datetime(s) => TomlTree::Datetime(s@),
            TomlValue::Array(items) => TomlTree::Array(
                Seq::new(
                    items@.len(),
                    |i: int|
                        if 0 <= i < items@.len() {
                            items@[i].tree()
                        } else {
                            TomlTree::Bool(false)
                        },
                ),
            ),
            TomlValue::Table(entries) => TomlTree::Table(
                Seq::new(
                    entries@.len(),
                    |i: int|
                        if 0 <= i < entries@.len() {
                            (entries@[i].0@, entries@[i].1.tree())
                        } else {
                            (Seq::empty(), TomlTree::Bool(false))
                        },
                ),
            ),
        }
    }
}

/// The trees of a table's entries, key by key.
pub open spec fn entries_view(es: Seq<(String, TomlValue)>) -> Seq<(Seq<char>, TomlTree)> {
    Seq::new(es.len(), |i: int| (es[i].0@, es[i].1.tree()))
}

/// The trees of an array's items.
pub open spec fn items_view(vs: Seq<TomlValue>) -> Seq<TomlTree> {
    Seq::new(vs.len(), |i: int| vs[i].tree())
}

pub open spec fn tree_opt(o: Option<TomlValue>) -> Option<TomlTree> {
    match o {
        Some(v) => Some(v.tree()),
        None => None,
    }
}

pub open spec fn tree_ref(o: Option<&TomlValue>) -> Option<TomlTree> {
    match o {
        Some(v) => Some(v.tree()),
        None => None,
    }
}

/// The value under `key` among a table's entries: the first entry with that
/// key (a parsed table has each key once).
pub open spec fn lookup(es: Seq<(Seq<char>, TomlTree)>, key: Seq<char>) -> Option<TomlTree>
    decreases es.len(),
{
    if es.len() == 0 {
        None
    } else if es[0].0 == key {
        Some(es[0].1)
    } else {
        lookup(es.drop_first(), key)
    }
}

/// `toml::Value::get` with a string key: the entry of a table, nothing for
/// any other value.
pub open spec fn tree_get(t: TomlTree, key: Seq<char>) -> Option<TomlTree> {
    match t {
        TomlTree::Table(es) => lookup(es, key),
        _ => None,
    }
}

/// [`tree_get`] through an optional value.
pub open spec fn opt_get(o: Option<TomlTree>, key: Seq<char>) -> Option<TomlTree> {
    match o {
        Some(t) => tree_get(t, key),
        None => None,
    }
}

/// A table's entries, or none for anything else (`as_table`, then empty).
pub open spec fn entries_of(o: Option<TomlTree>) -> Seq<(Seq<char>, TomlTree)> {
    match o {
        Some(TomlTree::Table(es)) => es,
        _ => Seq::empty(),
    }
}

pub open spec fn keys_of(es: Seq<(Seq<char>, TomlTree)>) -> Seq<Seq<char>> {
    Seq::new(es.len(), |i: int| es[i].0)
}

/// A table's entries with those under `key` taken out.
pub open spec fn without(es: Seq<(Seq<char>, TomlTree)>, key: Seq<char>) -> Seq<(Seq<char>, TomlTree)>
    decreases es.len(),
{
    if es.len() == 0 {
        Seq::empty()
    } else if es.last().0 == key {
        without(es.drop_last(), key)
    } else {
        without(es.drop_last(), key).push(es.last())
    }
}

/// The strings among an array's items, in order (`filter_map(as_str)`).
pub open spec fn strings_in(items: Seq<TomlTree>) -> Seq<Seq<char>>
    decreases items.len(),
{
    if items.len() == 0 {
        Seq::empty()
    } else {
        match items.last() {
            TomlTree::Str(s) => strings_in(items.drop_last()).push(s),
            _ => strings_in(items.drop_last()),
        }
    }
}

/// Two floats, each given by its `Debug` rendering, compare equal as `f64`
/// values do: a rendering names one value, except that `0.0` and `-0.0`
/// are equal and NaN equals nothing, not even itself.
pub open spec fn float_eq(x: Seq<char>, y: Seq<char>) -> bool {
    &&& x != "NaN"@
    &&& y != "NaN"@
    &&& (x == y || ((x == "0.0"@ || x == "-0.0"@) && (y == "0.0"@ || y == "-0.0"@)))
}

/// `==` on `toml::Value`: the same variant and equal contents, floats
/// compared as [`float_eq`] says, arrays item by item, tables entry by entry
/// (key and value).
pub open spec fn tree_eq(a: TomlTree, b: TomlTree) -> bool
    decreases a, 0int,
{
    match a {
        TomlTree::Float(x) => match b {
            TomlTree::Float(y) => float_eq(x, y),
            _ => false,
        },
        TomlTree::Array(xs) => match b {
            TomlTree::Array(ys) => xs.len() == ys.len() && items_eq_upto(xs, ys, xs.len() as int),
            _ => false,
        },
        TomlTree::Table(xs) => match b {
            TomlTree::Table(ys) => xs.len() == ys.len() && entries_eq_upto(xs, ys, xs.len() as int),
            _ => false,
        },
        _ => a == b,
    }
}

/// The first `k` items of two arrays compare equal, item by item.
pub open spec fn items_eq_upto(xs: Seq<TomlTree>, ys: Seq<TomlTree>, k: int) -> bool
    decreases xs, k,
{
    if k <= 0 || k > xs.len() || k > ys.len() {
        k <= 0
    } else {
        items_eq_upto(xs, ys, k - 1) && tree_eq(xs[k - 1], ys[k - 1])
    }
}

/// The first `k` entries of two tables have the same keys and equal values.
pub open spec fn entries_eq_upto(xs: Seq<(Seq<char>, TomlTree)>, ys: Seq<(Seq<char>, TomlTree)>, k: int) -> bool
    decreases xs, k,
{
    if k <= 0 || k > xs.len() || k > ys.len() {
        k <= 0
    } else {
        entries_eq_upto(xs, ys, k - 1) && xs[k - 1].0 == ys[k - 1].0 && tree_eq(xs[k - 1].1, ys[k - 1].1)
    }
}

pub proof fn lemma_items_eq_upto(xs: Seq<TomlTree>, ys: Seq<TomlTree>, k: int)
    requires
        0 <= k <= xs.len(),
        k <= ys.len(),
    ensures
        items_eq_upto(xs, ys, k) <==> forall|i: int| 0 <= i < k ==> #[trigger] tree_eq(xs[i], ys[i]),
    decreases k,
{
    if k > 0 {
        lemma_items_eq_upto(xs, ys, k - 1);
        if forall|i: int| 0 <= i < k ==> #[trigger] tree_eq(xs[i], ys[i]) {
            assert(tree_eq(xs[k - 1], ys[k - 1]));
            assert forall|i: int| 0 <= i < k - 1 implies #[trigger] tree_eq(xs[i], ys[i]) by {}
        }
        if items_eq_upto(xs, ys, k) {
            assert forall|i: int| 0 <= i < k implies #[trigger] tree_eq(xs[i], ys[i]) by {
                if i < k - 1 {
                    assert(tree_eq(xs[i], ys[i]));
                }
            }
        }
    }
}

/// Two table entries compare equal: the same key and equal values.
pub open spec fn entry_eq(x: (Seq<char>, TomlTree), y: (Seq<char>, TomlTree)) -> bool {
    x.0 == y.0 && tree_eq(x.1, y.1)
}

pub proof fn lemma_entries_eq_upto(xs: Seq<(Seq<char>, TomlTree)>, ys: Seq<(Seq<char>, TomlTree)>, k: int)
    requires
        0 <= k <= xs.len(),
        k <= ys.len(),
    ensures
        entries_eq_upto(xs, ys, k) <==> forall|i: int| 0 <= i < k ==> #[trigger] entry_eq(xs[i], ys[i]),
    decreases k,
{
    if k > 0 {
        lemma_entries_eq_upto(xs, ys, k - 1);
        if forall|i: int| 0 <= i < k ==> #[trigger] entry_eq(xs[i], ys[i]) {
            assert(entry_eq(xs[k - 1], ys[k - 1]));
            assert forall|i: int| 0 <= i < k - 1 implies #[trigger] entry_eq(xs[i], ys[i]) by {}
        }
        if entries_eq_upto(xs, ys, k) {
            assert forall|i: int| 0 <= i < k implies #[trigger] entry_eq(xs[i], ys[i]) by {
                if i < k - 1 {
                    assert(entry_eq(xs[i], ys[i]));
                }
            }
        }
    }
}

/// [`tree_eq`] on optional values: both absent, or both present and equal.
pub open spec fn opt_tree_eq(a: Option<TomlTree>, b: Option<TomlTree>) -> bool {
    match (a, b) {
        (Some(x), Some(y)) => tree_eq(x, y),
        (None, None) => true,
        _ => false,
    }
}

/// Two tables' entries compare equal: as many, and entry by entry the same
/// key and equal values.
pub open spec fn entries_eq(xs: Seq<(Seq<char>, TomlTree)>, ys: Seq<(Seq<char>, TomlTree)>) -> bool {
    xs.len() == ys.len() && entries_eq_upto(xs, ys, xs.len() as int)
}

/// Looking a key up in two tables whose entries compare equal gives values
/// that compare equal.
pub proof fn lemma_lookup_eq(xs: Seq<(Seq<char>, TomlTree)>, ys: Seq<(Seq<char>, TomlTree)>, k: Seq<char>)
    requires
        entries_eq(xs, ys),
    ensures
        opt_tree_eq(lookup(xs, k), lookup(ys, k)),
    decreases xs.len(),
{
    lemma_entries_eq_upto(xs, ys, xs.len() as int);
    if xs.len() > 0 {
        assert(entry_eq(xs[0], ys[0]));
        if xs[0].0 != k {
            let (xt, yt) = (xs.drop_first(), ys.drop_first());
            lemma_entries_eq_upto(xt, yt, xt.len() as int);
            assert forall|i: int| 0 <= i < xt.len() implies #[trigger] entry_eq(xt[i], yt[i]) by {
                assert(entry_eq(xs[i + 1], ys[i + 1]));
            }
            lemma_lookup_eq(xt, yt, k);
        }
    }
}

/// Two optional values that compare equal have entries that compare equal
/// (both tables, or neither).
pub proof fn lemma_entries_of_eq(a: Option<TomlTree>, b: Option<TomlTree>)
    requires
        opt_tree_eq(a, b),
    ensures
        entries_eq(entries_of(a), entries_of(b)),
{
    match (a, b) {
        (Some(TomlTree::Table(xs)), Some(TomlTree::Table(ys))) => {},
        (Some(TomlTree::Table(xs)), Some(y)) => {},
        (Some(x), Some(TomlTree::Table(ys))) => {
            assert(x !is Float && x !is Array);
        },
        _ => {
            assert(entries_of(a) =~= Seq::<(Seq<char>, TomlTree)>::empty());
            assert(entries_of(b) =~= Seq::<(Seq<char>, TomlTree)>::empty());
        },
    }
}

impl TomlValue {
    pub proof fn lemma_table_tree(es: Vec<(String, TomlValue)>)
        ensures
            TomlValue::Table(es).tree() == TomlTree::Table(entries_view(es@)),
    {
        assert(TomlValue::Table(es).tree()->Table_0 =~= entries_view(es@));
    }

    pub proof fn lemma_array_tree(vs: Vec<TomlValue>)
        ensures
            TomlValue::Array(vs).tree() == TomlTree::Array(items_view(vs@)),
    {
        assert(TomlValue::Array(vs).tree()->Array_0 =~= items_view(vs@));
    }
}

fn float_text_eq(x: &str, y: &str) -> (r: bool)
    ensures
        r == float_eq(x@, y@),
{
    if str_eq(x, "NaN") || str_eq(y, "NaN") {
        return false;
    }
    if str_eq(x, y) {
        return true;
    }
    (str_eq(x, "0.0") || str_eq(x, "-0.0")) && (str_eq(y, "0.0") || str_eq(y, "-0.0"))
}

/// Deep equality of two values, as `toml::Value`'s `==` compares them.
pub fn value_eq(a: &TomlValue, b: &TomlValue) -> (r: bool)
    ensures
        r == tree_eq(a.tree(), b.tree()),
    decreases a,
{
    match (a, b) {
        (TomlValue::Str(x), TomlValue::Str(y)) => str_eq(x.as_str(), y.as_str()),
        (TomlValue::Int(x), TomlValue::Int(y)) => *x == *y,
        (TomlValue::Float(x), TomlValue::Float(y)) => float_text_eq(x.as_str(), y.as_str()),
        (TomlValue::Bool(x), TomlValue::Bool(y)) => *x == *y,
        (TomlValue::Datetime(x), TomlValue::Datetime(y)) => str_eq(x.as_str(), y.as_str()),
        (TomlValue::Array(xs), TomlValue::Array(ys)) => {
            proof {
                TomlValue::lemma_array_tree(*xs);
                TomlValue::lemma_array_tree(*ys);
            }
            if xs.len() != ys.len() {
                assert(items_view(xs@).len() != items_view(ys@).len());
                return false;
            }
            let mut i: usize = 0;
            while i < xs.len()
                invariant
                    i <= xs@.len(),
                    xs@.len() == ys@.len(),
                    a.tree() == TomlTree::Array(items_view(xs@)),
                    b.tree() == TomlTree::Array(items_view(ys@)),
                    *a == TomlValue::Array(*xs),
                    forall|j: int| 0 <= j < i ==> tree_eq(#[trigger] items_view(xs@)[j], items_view(ys@)[j]),
                decreases xs.len() - i,
            {
                proof {
                    assert(decreases_to!(*a => *xs));
                    assert(decreases_to!(*xs => xs@));
                    assert(decreases_to!(xs@ => xs@[i as int]));
                }
                if !value_eq(&xs[i], &ys[i]) {
                    assert(!tree_eq(items_view(xs@)[i as int], items_view(ys@)[i as int]));
                    proof {
                        lemma_items_eq_upto(items_view(xs@), items_view(ys@), xs@.len() as int);
                    }
                    return false;
                }
                i = i + 1;
            }
            proof {
                lemma_items_eq_upto(items_view(xs@), items_view(ys@), xs@.len() as int);
            }
            true
        },
        (TomlValue::Table(xs), TomlValue::Table(ys)) => {
            proof {
                TomlValue::lemma_table_tree(*xs);
                TomlValue::lemma_table_tree(*ys);
            }
            if xs.len() != ys.len() {
                assert(entries_view(xs@).len() != entries_view(ys@).len());
                return false;
            }
            let mut i: usize = 0;
            while i < xs.len()
                invariant
                    i <= xs@.len(),
                    xs@.len() == ys@.len(),
                    a.tree() == TomlTree::Table(entries_view(xs@)),
                    b.tree() == TomlTree::Table(entries_view(ys@)),
                    *a == TomlValue::Table(*xs),
                    forall|j: int| 0 <= j < i ==> #[trigger] entry_eq(entries_view(xs@)[j], entries_view(ys@)[j]),
                decreases xs.len() - i,
            {
                if !str_eq(xs[i].0.as_str(), ys[i].0.as_str()) {
                    assert(!entry_eq(entries_view(xs@)[i as int], entries_view(ys@)[i as int]));
                    proof {
                        lemma_entries_eq_upto(entries_view(xs@), entries_view(ys@), xs@.len() as int);
                    }
                    return false;
                }
                proof {
                    assert(decreases_to!(*a => *xs));
                    assert(decreases_to!(*xs => xs@));
                    assert(decreases_to!(xs@ => xs@[i as int]));
                    assert(decreases_to!(xs@[i as int] => xs@[i as int].1));
                }
                if !value_eq(&xs[i].1, &ys[i].1) {
                    assert(!entry_eq(entries_view(xs@)[i as int], entries_view(ys@)[i as int]));
                    proof {
                        lemma_entries_eq_upto(entries_view(xs@), entries_view(ys@), xs@.len() as int);
                    }
                    return false;
                }
                assert(entry_eq(entries_view(xs@)[i as int], entries_view(ys@)[i as int]));
                i = i + 1;
            }
            proof {
                lemma_entries_eq_upto(entries_view(xs@), entries_view(ys@), xs@.len() as int);
            }
            true
        },
        _ => false,
    }
}

/// The value under `key` among a table's entries.
pub fn lookup_in<'a>(es: &'a [(String, TomlValue)], key: &str) -> (r: Option<&'a TomlValue>)
    ensures
        tree_ref(r) == lookup(entries_view(es@), key@),
{
    let ghost all = entries_view(es@);
    assert(all.skip(0) =~= all);
    let mut i: usize = 0;
    while i < es.len()
        invariant
            i <= es@.len(),
            all == entries_view(es@),
            lookup(all, key@) == lookup(all.skip(i as int), key@),
        decreases es.len() - i,
    {
        if str_eq(es[i].0.as_str(), key) {
            return Some(&es[i].1);
        }
        assert(all.skip(i as int).drop_first() =~= all.skip(i + 1));
        i = i + 1;
    }
    None
}

impl TomlValue {
    /// The value under `key`, when this is a table that has one.
    pub fn get(&self, key: &str) -> (r: Option<&TomlValue>)
        ensures
            tree_ref(r) == tree_get(self.tree(), key@),
    {
        match self {
            TomlValue::Table(es) => {
                proof {
                    TomlValue::lemma_table_tree(*es);
                }
                lookup_in(es.as_slice(), key)
            },
            _ => None,
        }
    }
}

/// [`TomlValue::get`] through an optional value.
pub fn get_in<'a>(o: Option<&'a TomlValue>, key: &str) -> (r: Option<&'a TomlValue>)
    ensures
        tree_ref(r) == opt_get(tree_ref(o), key@),
{
    match o {
        Some(v) => v.get(key),
        None => None,
    }
}

/// The entries of an optional table; none when it is absent or no table.
pub fn entries_in<'a>(o: Option<&'a TomlValue>) -> (r: &'a [(String, TomlValue)])
    ensures
        entries_view(r@) == entries_of(tree_ref(o)),
{
    match o {
        Some(TomlValue::Table(es)) => {
            proof {
                TomlValue::lemma_table_tree(*es);
            }
            es.as_slice()
        },
        _ => {
            let empty: &[(String, TomlValue)] = &[];
            assert(entries_view(empty@) =~= Seq::empty());
            empty
        },
    }
}

/// Two optional values compare equal (both absent, or both present and
/// equal).
pub fn opt_value_eq(a: Option<&TomlValue>, b: Option<&TomlValue>) -> (r: bool)
    ensures
        r == opt_tree_eq(tree_ref(a), tree_ref(b)),
{
    match (a, b) {
        (Some(x), Some(y)) => value_eq(x, y),
        (None, None) => true,
        _ => false,
    }
}

// ── the call into `toml` ────────────────────────────────────────────────────

#[verifier::external_type_specification]
#[verifier::external_body]
pub struct ExTomlValue(toml::Value);

/// What `toml::from_str::<toml::Value>` makes of a document, as a tree;
/// `None` when the text is not a TOML document.
pub uninterp spec fn toml_document(text: Seq<char>) -> Option<TomlTree>;

/// The `Display` text of the error `toml::from_str::<toml::Value>` reports
/// for a document it cannot parse.
pub uninterp spec fn toml_error(text: Seq<char>) -> Seq<char>;

/// The tree of a parse result; `None` for an error.
pub open spec fn parsed_tree(r: Result<TomlValue, String>) -> Option<TomlTree> {
    match r {
        Ok(v) => Some(v.tree()),
        Err(_) => None,
    }
}

/// Moves a `toml::Value` into a [`TomlValue`], variant for variant: strings,
/// integers, booleans and keys as they are, a float as its `Debug`
/// rendering, a datetime as its `Display` rendering, arrays and tables item
/// by item in the order `toml` iterates them (a table's in ascending key
/// order). Only [`parse_document`] calls it, and states the result.
#[verifier::external_body]
fn moved_from(v: &toml::Value) -> TomlValue {
    match v {
        toml::Value::String(s) => TomlValue::Str(s.clone()),
        toml::Value::Integer(i) => TomlValue::Int(*i),
        toml::Value::Float(f) => TomlValue::Float(format!("{f:?}")),
        toml::Value::Boolean(b) => TomlValue::Bool(*b),
        toml::Value::Datetime(d) => TomlValue::Datetime(d.to_string()),
        toml::Value::Array(a) => TomlValue::Array(a.iter().map(moved_from).collect()),
        toml::Value::Table(t) => TomlValue::Table(
            t.iter().map(|(k, x)| (k.clone(), moved_from(x))).collect(),
        ),
    }
}

/// Parses a TOML document.
///
/// Trusted: `toml::from_str::<toml::Value>` parses `text`, and the value is
/// moved into a [`TomlValue`]; on failure the error's `Display` text comes
/// back. Both depend on the text alone and are only named.
#[verifier::external_body]
pub(crate) fn parse_document(text: &str) -> (r: Result<TomlValue, String>)
    ensures
        parsed_tree(r) == toml_document(text@),
        r matches Err(e) ==> e@ == toml_error(text@),
{
    match toml::from_str::<toml::Value>(text) {
        Ok(v) => Ok(moved_from(&v)),
        Err(e) => Err(e.to_string()),
    }
}

} // verus!
