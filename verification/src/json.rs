use vstd::prelude::*;

verus! {

/// A JSON document as the monitor protocol builds it: a tree of plain values.
#[derive(Debug, PartialEq)]
pub enum Json {
    Null,
    Bool(bool),
    Num(u64),
    Str(String),
    Arr(Vec<Json>),
    Obj(Vec<(String, Json)>),
}

/// The mathematical model of a [`Json`] tree.
pub enum JsonView {
    Null,
    Bool(bool),
    Num(u64),
    Str(Seq<char>),
    Arr(Seq<JsonView>),
    Obj(Seq<(Seq<char>, JsonView)>),
}

impl Json {
    pub open spec fn model(&self) -> JsonView
        decreases self,
    {
        match self {
            Json::Null => JsonView::Null,
            Json::Bool(b) => JsonView::Bool(*b),
            Json::Num(n) => JsonView::Num(*n),
            Json::Str(s) => JsonView::Str(s@),
            Json::Arr(items) => JsonView::Arr(
                Seq::new(items.len() as nat, |i: int| if 0 <= i < items.len() { items@[i].model() } else { JsonView::Null }),
            ),
            Json::Obj(entries) => JsonView::Obj(
                Seq::new(entries.len() as nat, |i: int| if 0 <= i < entries.len() { (entries@[i].0@, entries@[i].1.model()) } else { (Seq::empty(), JsonView::Null) }),
            ),
        }
    }
}

impl View for Json {
    type V = JsonView;

    open spec fn view(&self) -> JsonView {
        self.model()
    }
}


/// The model of a list of object members.
pub open spec fn members_view(es: Seq<(String, Json)>) -> Seq<(Seq<char>, JsonView)> {
    es.map_values(|p: (String, Json)| (p.0@, p.1@))
}

/// The model of a list of array items.
pub open spec fn items_view(items: Seq<Json>) -> Seq<JsonView> {
    items.map_values(|x: Json| x@)
}

/// The value of the last of `es` named `key` (`Null` where there is none).
pub open spec fn member_of(es: Seq<(Seq<char>, JsonView)>, key: Seq<char>) -> JsonView
    decreases es.len(),
{
    if es.len() == 0 {
        JsonView::Null
    } else if es.last().0 == key {
        es.last().1
    } else {
        member_of(es.drop_last(), key)
    }
}

/// The value of the last member named `key` of an object (`Null` where
/// there is none, or where `doc` is no object).
pub open spec fn member(doc: JsonView, key: Seq<char>) -> JsonView {
    match doc {
        JsonView::Obj(es) => member_of(es, key),
        _ => JsonView::Null,
    }
}

/// A JSON string holding `s`.
pub fn text(s: &str) -> (j: Json)
    ensures
        j@ == JsonView::Str(s@),
{
    Json::Str(String::from_str(s))
}

/// Appends the member `key: value` to a list of object members.
pub fn push_member(es: &mut Vec<(String, Json)>, key: &str, value: Json)
    ensures
        members_view(final(es)@) == members_view(old(es)@).push((key@, value@)),
{
    let ghost v = value@;
    es.push((String::from_str(key), value));
    assert(members_view(es@) =~= members_view(old(es)@).push((key@, v)));
}

/// The object with the given members, in order.
pub fn object(es: Vec<(String, Json)>) -> (j: Json)
    ensures
        j@ == JsonView::Obj(members_view(es@)),
{
    let j = Json::Obj(es);
    assert(j@->Obj_0 =~= members_view(es@));
    j
}

/// The array with the given items, in order.
pub fn array(items: Vec<Json>) -> (j: Json)
    ensures
        j@ == JsonView::Arr(items_view(items@)),
{
    let j = Json::Arr(items);
    assert(j@->Arr_0 =~= items_view(items@));
    j
}

} // verus!
