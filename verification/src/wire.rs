use vstd::prelude::*;

use crate::json::{Json, JsonView};

verus! {

/// Declares `serde_json::Value`, which [`Encoded`] carries; Verus sees
/// nothing inside it.
#[verifier::external_type_specification]
#[verifier::external_body]
pub struct ExJsonValue(serde_json::Value);

/// A `serde_json::Value` together with the tree it was built from.
///
/// Only the constructors of this module make one, each from parts that
/// already are `Encoded`, so the value always holds the tree of its view.
pub(crate) struct Encoded {
    value: serde_json::Value,
    model: Ghost<JsonView>,
}

impl View for Encoded {
    type V = JsonView;

    closed spec fn view(&self) -> JsonView {
        self.model@
    }
}

/// The text that `serde_json` prints (its `Display` for `Value`, the
/// compact form) for the value that holds `doc`.
pub uninterp spec fn json_text(doc: JsonView) -> Seq<char>;

/// A name for the result of [`read_member`] on `line` and `key`: what
/// `serde_json` reads there (parsing the line, looking up the member, and
/// the text of a parse error). Nothing more of it is stated here.
pub uninterp spec fn request_member(line: Seq<char>, key: Seq<char>) -> Result<
    Option<Seq<char>>,
    Seq<char>,
>;

/// The model of a reading: the views of its strings.
pub open spec fn reading_view(r: Result<Option<String>, String>) -> Result<
    Option<Seq<char>>,
    Seq<char>,
> {
    match r {
        Ok(o) => Ok(opt_text(o)),
        Err(msg) => Err(msg@),
    }
}

/// A text that holds no control character (none below `' '`), so in
/// particular no line break: it goes out as one line.
pub open spec fn is_one_line(s: Seq<char>) -> bool {
    forall|i: int| 0 <= i < s.len() ==> ' ' <= #[trigger] s[i]
}

/// The view of an optional owned string.
pub open spec fn opt_text(o: Option<String>) -> Option<Seq<char>> {
    match o {
        Some(s) => Some(s@),
        None => None,
    }
}

/// `serde_json::Value::Null`.
#[verifier::external_body]
fn encoded_null() -> (e: Encoded)
    ensures
        e@ == JsonView::Null,
{
    Encoded { value: serde_json::Value::Null, model: Ghost(JsonView::Null) }
}

/// `serde_json::Value::Bool(b)`: the value holds the boolean `b`.
#[verifier::external_body]
fn encoded_bool(b: bool) -> (e: Encoded)
    ensures
        e@ == JsonView::Bool(b),
{
    Encoded { value: serde_json::Value::Bool(b), model: Ghost(JsonView::Bool(b)) }
}

/// `serde_json::Value::from(n)` for a `u64`: the value holds the
/// non-negative integer `n`.
#[verifier::external_body]
fn encoded_num(n: u64) -> (e: Encoded)
    ensures
        e@ == JsonView::Num(n),
{
    Encoded { value: serde_json::Value::from(n), model: Ghost(JsonView::Num(n)) }
}

/// `serde_json::Value::String(s)`: the value holds the string `s`.
#[verifier::external_body]
fn encoded_str(s: String) -> (e: Encoded)
    ensures
        e@ == JsonView::Str(s@),
{
    let ghost m = JsonView::Str(s@);
    Encoded { value: serde_json::Value::String(s), model: Ghost(m) }
}

/// `serde_json::Value::Array`, collected from the items in order.
#[verifier::external_body]
fn encoded_array(items: Vec<Encoded>) -> (e: Encoded)
    ensures
        e@ == JsonView::Arr(items@.map_values(|x: Encoded| x@)),
{
    let ghost m = JsonView::Arr(items@.map_values(|x: Encoded| x@));
    Encoded { value: serde_json::Value::Array(items.into_iter().map(|x| x.value).collect()), model: Ghost(m) }
}

/// `serde_json::Value::Object`, collected from the key-value pairs into a
/// `serde_json::Map`.
#[verifier::external_body]
fn encoded_object(entries: Vec<(String, Encoded)>) -> (e: Encoded)
    ensures
        e@ == JsonView::Obj(entries@.map_values(|p: (String, Encoded)| (p.0@, p.1@))),
{
    let ghost m = JsonView::Obj(entries@.map_values(|p: (String, Encoded)| (p.0@, p.1@)));
    Encoded { value: entries.into_iter().map(|p| (p.0, p.1.value)).collect(), model: Ghost(m) }
}

/// `Value::to_string` (the `Display` of `serde_json`): the compact JSON
/// text of the value, which is a function of the tree it holds. The
/// compact form writes no white space between tokens and escapes every
/// control character inside strings, so the text is one line.
#[verifier::external_body]
fn encoded_text(e: &Encoded) -> (s: String)
    ensures
        s@ == json_text(e@),
        is_one_line(s@),
{
    e.value.to_string()
}

/// `serde_json::from_str::<Value>(line)`, and on success the string under
/// the member `key` (`value[key].as_str()`), on failure the error's
/// `Display` text. The result depends on `line` and `key` alone.
#[verifier::external_body]
pub(crate) fn read_member(line: &str, key: &str) -> (r: Result<Option<String>, String>)
    ensures
        reading_view(r) == request_member(line@, key@),
{
    match serde_json::from_str::<serde_json::Value>(line) {
        Ok(v) => Ok(v[key].as_str().map(|s| s.to_string())),
        Err(e) => Err(e.to_string()),
    }
}

/// Builds the `serde_json` value of a tree.
fn to_encoded(j: &Json) -> (e: Encoded)
    ensures
        e@ == j@,
    decreases j,
{
    match j {
        Json::Null => encoded_null(),
        Json::Bool(b) => encoded_bool(*b),
        Json::Num(n) => encoded_num(*n),
        Json::Str(s) => encoded_str(s.clone()),
        Json::Arr(items) => {
            let mut out: Vec<Encoded> = Vec::new();
            let mut i: usize = 0;
            while i < items.len()
                invariant
                    i <= items.len(),
                    out.len() == i,
                    *j == Json::Arr(*items),
                    forall|k: int| 0 <= k < i ==> #[trigger] out@[k]@ == items@[k]@,
                decreases items.len() - i,
            {
                assert(decreases_to!(*j => j->Arr_0));
                assert(decreases_to!(*items => items@));
                assert(decreases_to!(items@ => items@[i as int]));
                let e = to_encoded(&items[i]);
                out.push(e);
                i = i + 1;
            }
            let r = encoded_array(out);
            assert(r@->Arr_0 =~= j@->Arr_0);
            r
        },
        Json::Obj(entries) => {
            let mut out: Vec<(String, Encoded)> = Vec::new();
            let mut i: usize = 0;
            while i < entries.len()
                invariant
                    i <= entries.len(),
                    out.len() == i,
                    *j == Json::Obj(*entries),
                    forall|k: int|
                        0 <= k < i ==> #[trigger] out@[k].0@ == entries@[k].0@ && out@[k].1@
                            == entries@[k].1@,
                decreases entries.len() - i,
            {
                assert(decreases_to!(*j => j->Obj_0));
                assert(decreases_to!(*entries => entries@));
                assert(decreases_to!(entries@ => entries@[i as int]));
                assert(decreases_to!(entries@[i as int] => entries@[i as int].1));
                let e = to_encoded(&entries[i].1);
                out.push((entries[i].0.clone(), e));
                i = i + 1;
            }
            let r = encoded_object(out);
            assert(r@->Obj_0 =~= j@->Obj_0);
            r
        },
    }
}

/// The compact JSON text of a tree, as `serde_json` prints it, on one line.
pub fn encode(j: &Json) -> (s: String)
    ensures
        s@ == json_text(j@),
        is_one_line(s@),
{
    let e = to_encoded(j);
    encoded_text(&e)
}

} // verus!
