//! JSON, one level at a time.
//!
//! A [`Json`] holds the top of a JSON text. What an array or an object holds is kept
//! as the JSON text it was, to be read in turn.
use crate::data::{none_of, put, Dup};
use crate::order;
use crate::text;
use crate::text::{lit, same};
use serde_json::Value;
use vstd::prelude::*;

verus! {

/// The top level of a JSON text.
#[derive(Debug, PartialEq, Eq)]
pub enum Json {
    Null,
    Bool(bool),
    /// A number: as an unsigned integer where it is one, and as it was written.
    Number { whole: Option<u64>, shown: String },
    Text(String),
    /// The elements, each as JSON text.
    List(Vec<String>),
    /// The members, each value as JSON text.
    Object(Vec<(String, String)>),
}

/// What a [`Json`] holds.
#[verifier::ext_equal]
pub enum JsonView {
    Null,
    Bool(bool),
    Number { whole: Option<u64>, shown: Seq<char> },
    Text(Seq<char>),
    List(Seq<Seq<char>>),
    Object(Seq<(Seq<char>, Seq<char>)>),
}

impl DeepView for Json {
    type V = JsonView;

    open spec fn deep_view(&self) -> JsonView {
        match self {
            Json::Null => JsonView::Null,
            Json::Bool(x) => JsonView::Bool(x.deep_view()),
            Json::Number { whole, shown } => JsonView::Number {
                whole: whole.deep_view(),
                shown: shown.deep_view(),
            },
            Json::Text(x) => JsonView::Text(x.deep_view()),
            Json::List(x) => JsonView::List(x.deep_view()),
            Json::Object(x) => JsonView::Object(x.deep_view()),
        }
    }
}

impl Dup for Json {
    fn dup(&self) -> (r: Self) {
        match self {
            Json::Null => Json::Null,
            Json::Bool(x) => Json::Bool(x.dup()),
            Json::Number { whole, shown } => Json::Number {
                whole: whole.dup(),
                shown: shown.dup(),
            },
            Json::Text(x) => Json::Text(x.dup()),
            Json::List(x) => Json::List(x.dup()),
            Json::Object(x) => Json::Object(x.dup()),
        }
    }
}

impl Clone for Json {
    fn clone(&self) -> (r: Self)
        ensures
            r.deep_view() == self.deep_view(),
    {
        self.dup()
    }
}

/// How `serde_json::from_str::<serde_json::Value>` reads a text: the value, or the
/// error it reports.
pub uninterp spec fn parsed(text: Seq<char>) -> Result<JsonView, Seq<char>>;

/// How `serde_json::to_string` writes a string: in quotes, escaped.
pub uninterp spec fn quoted(text: Seq<char>) -> Seq<char>;

pub open spec fn outcome(r: Result<Json, String>) -> Result<JsonView, Seq<char>> {
    match r {
        Ok(j) => Ok(j.deep_view()),
        Err(e) => Err(e@),
    }
}

/// Reads a JSON text with `serde_json::from_str` into a `serde_json::Value` and hands
/// over its top level. Which value a text holds, and with which words a malformed one
/// is refused, is named [`parsed`] and otherwise left unsaid.
#[verifier::external_body]
pub(crate) fn parse(text: &str) -> (r: Result<Json, String>)
    ensures
        outcome(r) == parsed(text@),
{
    let value: Value = serde_json::from_str(text).map_err(|e| e.to_string())?;
    Ok(
        match value {
            Value::Null => Json::Null,
            Value::Bool(b) => Json::Bool(b),
            Value::Number(n) => Json::Number { whole: n.as_u64(), shown: n.to_string() },
            Value::String(s) => Json::Text(s),
            Value::Array(a) => Json::List(a.iter().map(|v| v.to_string()).collect()),
            Value::Object(o) => Json::Object(
                o.iter().map(|(k, v)| (k.clone(), v.to_string())).collect(),
            ),
        },
    )
}

/// Writes a string as JSON with `serde_json::to_string`, which cannot fail on one. The
/// quoting and escaping it applies is named [`quoted`].
#[verifier::external_body]
pub(crate) fn quote(s: &str) -> (r: String)
    ensures
        r@ == quoted(s@),
{
    serde_json::to_string(s).unwrap_or_default()
}

/// How serde_json writes back, without white space, what it read from a text.
pub uninterp spec fn compact(text: Seq<char>) -> Seq<char>;

/// A key that is written as it is, between quotes.
pub open spec fn plain(key: Seq<char>) -> bool {
    forall|i: int| 0 <= i < key.len() ==> #[trigger] key[i] >= ' ' && key[i] != '"' && key[i] != '\\'
}

/// Plain keys, in order, once each.
pub open spec fn well_keyed(members: Seq<(Seq<char>, Seq<char>)>) -> bool {
    let keys = Seq::new(members.len(), |i: int| members[i].0);
    &&& order::increasing(keys)
    &&& forall|i: int| 0 <= i < keys.len() ==> plain(#[trigger] keys[i])
}

/// Members as an object, without white space.
pub open spec fn object_text(members: Seq<(Seq<char>, Seq<char>)>) -> Seq<char> {
    "{"@ + text::joined(
        Seq::new(
            members.len(),
            |i: int| "\""@ + members[i].0 + "\":"@ + compact(members[i].1),
        ),
        ","@,
    ) + "}"@
}

/// Members, each value as what was written of it is read and written again.
pub open spec fn read_over(members: Seq<(Seq<char>, Seq<char>)>) -> Seq<(Seq<char>, Seq<char>)> {
    Seq::new(members.len(), |i: int| (members[i].0, compact(compact(members[i].1))))
}

/// Reads each value with `serde_json::from_str`, collects them under their keys in a
/// `serde_json::Map`, and writes that with `serde_json::Value`'s `to_string`. The text
/// is what that writer gives: no white space, keys in order, control characters
/// escaped, so it is one line. Where reading it does not fail for its depth, it reads
/// back as the same members, each value as what was written of it reads. It fails
/// where a value cannot be read, with the error of the first such. How a value is
/// written back is named [`compact`]; that it comes out the same a second time is not
/// said, since reading a fraction may round it.
#[verifier::external_body]
pub(crate) fn object(members: &Vec<(String, String)>) -> (r: Result<String, String>)
    requires
        well_keyed(members.deep_view()),
    ensures
        match r {
            Ok(t) => {
                &&& forall|i: int|
                    0 <= i < members@.len() ==> parsed(#[trigger] members.deep_view()[i].1) is Ok
                &&& t@ == object_text(members.deep_view())
                &&& text::one_line(t@)
                &&& parsed(t@) is Ok ==> parsed(t@) == Ok::<JsonView, Seq<char>>(
                    JsonView::Object(read_over(members.deep_view())),
                )
            },
            Err(e) => exists|i: int|
                {
                    &&& 0 <= i < members@.len()
                    &&& parsed(#[trigger] members.deep_view()[i].1) == Err::<JsonView, Seq<char>>(e@)
                    &&& forall|j: int|
                        0 <= j < i ==> parsed(#[trigger] members.deep_view()[j].1) is Ok
                },
        },
{
    let mut object = serde_json::Map::new();
    for (key, value) in members {
        let value: Value = serde_json::from_str(value).map_err(|e| e.to_string())?;
        object.insert(key.clone(), value);
    }
    Ok(Value::Object(object).to_string())
}

/// Writes a number as JSON with `serde_json::to_string`, which cannot fail on one: in
/// decimal. It reads as that number, and is written back as it is.
#[verifier::external_body]
pub(crate) fn numeral(n: u64) -> (r: String)
    ensures
        r@ == text::decimal(n as nat),
        (parsed(r@) == Ok::<JsonView, Seq<char>>(
            JsonView::Number { whole: Some(n), shown: text::decimal(n as nat) },
        )),
        compact(r@) == r@,
{
    serde_json::to_string(&n).unwrap_or_default()
}

/// The member of an object under `key`, as JSON text.
pub open spec fn member(j: JsonView, key: Seq<char>) -> Option<Seq<char>> {
    match j {
        JsonView::Object(o) => if first_under(o, key) < o.len() {
            Some(o[first_under(o, key)].1)
        } else {
            None
        },
        _ => None,
    }
}

/// Where `key` first stands among the members; their number where it does not.
pub open spec fn first_under(o: Seq<(Seq<char>, Seq<char>)>, key: Seq<char>) -> int
    decreases o.len(),
{
    if o.len() == 0 || o[0].0 == key {
        0
    } else {
        1 + first_under(o.skip(1), key)
    }
}

proof fn lemma_first_under(o: Seq<(Seq<char>, Seq<char>)>, key: Seq<char>, k: int)
    requires
        0 <= k <= o.len(),
        k < o.len() ==> o[k].0 == key,
        forall|i: int| 0 <= i < k ==> (#[trigger] o[i]).0 != key,
    ensures
        first_under(o, key) == k,
    decreases o.len(),
{
    if k > 0 {
        assert(o[0].0 != key);
        let r = o.skip(1);
        assert forall|i: int| 0 <= i < k - 1 implies (#[trigger] r[i]).0 != key by {
            assert(r[i] == o[i + 1]);
        }
        lemma_first_under(r, key, k - 1);
    }
}

impl Json {
    /// The member of an object under `key`, as JSON text.
    pub fn get(&self, key: &str) -> (r: Option<String>)
        ensures
            r.deep_view() == member(self.deep_view(), key@),
    {
        match self {
            Json::Object(o) => {
                let ghost all = o.deep_view();
                let mut i: usize = 0;
                while i < o.len()
                    invariant
                        i <= o.len(),
                        all == o.deep_view(),
                        self.deep_view() == JsonView::Object(all),
                        forall|k: int| 0 <= k < i ==> (#[trigger] all[k]).0 != key@,
                    decreases o.len() - i,
                {
                    if same(o[i].0.as_str(), key) {
                        proof {
                            assert(all[i as int].0 == key@);
                            assert(all[i as int].1 == o@[i as int].1@);
                            lemma_first_under(all, key@, i as int);
                        }
                        return Some(o[i].1.clone());
                    }
                    assert(all[i as int].0 != key@);
                    i = i + 1;
                }
                proof {
                    lemma_first_under(all, key@, i as int);
                }
                None
            },
            _ => None,
        }
    }
}

/// A string under `key`.
pub open spec fn text_under(j: JsonView, key: Seq<char>) -> Option<Seq<char>> {
    match member(j, key) {
        Some(raw) => match parsed(raw) {
            Ok(JsonView::Text(s)) => Some(s),
            _ => None,
        },
        None => None,
    }
}

/// An unsigned integer under `key`.
pub open spec fn whole_under(j: JsonView, key: Seq<char>) -> Option<u64> {
    match member(j, key) {
        Some(raw) => match parsed(raw) {
            Ok(JsonView::Number { whole, .. }) => whole,
            _ => None,
        },
        None => None,
    }
}

/// A truth value under `key`.
pub open spec fn bool_under(j: JsonView, key: Seq<char>) -> Option<bool> {
    match member(j, key) {
        Some(raw) => match parsed(raw) {
            Ok(JsonView::Bool(b)) => Some(b),
            _ => None,
        },
        None => None,
    }
}

impl Json {
    pub fn text_at(&self, key: &str) -> (r: Option<String>)
        ensures
            r.deep_view() == text_under(self.deep_view(), key@),
    {
        match self.get(key) {
            Some(raw) => match parse(raw.as_str()) {
                Ok(Json::Text(s)) => Some(s),
                _ => None,
            },
            None => None,
        }
    }

    pub fn whole_at(&self, key: &str) -> (r: Option<u64>)
        ensures
            r == whole_under(self.deep_view(), key@),
    {
        match self.get(key) {
            Some(raw) => match parse(raw.as_str()) {
                Ok(Json::Number { whole, .. }) => whole,
                _ => None,
            },
            None => None,
        }
    }

    pub fn bool_at(&self, key: &str) -> (r: Option<bool>)
        ensures
            r == bool_under(self.deep_view(), key@),
    {
        match self.get(key) {
            Some(raw) => match parse(raw.as_str()) {
                Ok(Json::Bool(b)) => Some(b),
                _ => None,
            },
            None => None,
        }
    }
}

/// Reads the top level of a JSON text.
pub fn read(text: &str) -> (r: Result<Json, String>)
    ensures
        outcome(r) == parsed(text@),
{
    parse(text)
}

// ---- writing --------------------------------------------------------------

/// Strings, each quoted.
pub open spec fn all_quoted(list: Seq<Seq<char>>) -> Seq<Seq<char>> {
    Seq::new(list.len(), |i: int| quoted(list[i]))
}

/// A JSON array of the given JSON texts.
pub open spec fn array(items: Seq<Seq<char>>) -> Seq<char> {
    "["@ + text::joined(items, ","@) + "]"@
}

pub fn write_array(items: &Vec<String>) -> (r: String)
    ensures
        r@ == array(items.deep_view()),
{
    lit("[").concat(text::join(items, ",").as_str()).concat("]")
}

/// A JSON array of strings.
pub fn write_strings(list: &Vec<String>) -> (r: String)
    ensures
        r@ == array(all_quoted(list.deep_view())),
{
    let ghost all = all_quoted(list.deep_view());
    let mut out: Vec<String> = none_of();
    let mut i: usize = 0;
    assert(out.deep_view() =~= all.take(0));
    while i < list.len()
        invariant
            i <= list.len(),
            all == all_quoted(list.deep_view()),
            out.deep_view() == all.take(i as int),
        decreases list.len() - i,
    {
        put(&mut out, quote(list[i].as_str()));
        assert(out.deep_view() =~= all.take(i + 1));
        i = i + 1;
    }
    assert(all.take(i as int) =~= all);
    write_array(&out)
}

/// A string, or `null` where there is none.
pub open spec fn quoted_or_null(s: Option<Seq<char>>) -> Seq<char> {
    match s {
        Some(t) => quoted(t),
        None => "null"@,
    }
}

pub fn quote_or_null(s: &Option<String>) -> (r: String)
    ensures
        r@ == quoted_or_null(s.deep_view()),
{
    match s {
        Some(t) => quote(t.as_str()),
        None => lit("null"),
    }
}

} // verus!
