//! A one-level model of JSON values.
//!
//! A parsed value keeps its scalar content, and for an array or an object the
//! compact text of each member; a member is read by parsing its text again.
//! Parsing and the quoting of string literals are done by the `json` crate;
//! the compact layout of arrays and objects around their members is written
//! out here.

use vstd::prelude::*;
use json::JsonValue;
use crate::text::{join, join_strings, push_char, push_str, views};

verus! {

broadcast use vstd::string::group_string_axioms;

/// One member of a JSON object: its key and the compact JSON text of its value.
#[derive(Clone, Debug, PartialEq, Eq)]
pub struct JsonEntry {
    pub key: String,
    pub value: String,
}

/// A JSON value, with the members of arrays and objects held as compact text.
#[derive(Clone, Debug, PartialEq, Eq)]
pub enum Json {
    Null,
    Boolean(bool),
    /// The decimal text of a number.
    Number(String),
    /// A JSON string, unescaped.
    Text(String),
    /// The compact text of each element.
    Array(Vec<String>),
    /// The members in their order; keys are distinct.
    Object(Vec<JsonEntry>),
}

/// The mathematical form of [`Json`].
pub enum JsonView {
    Null,
    Boolean(bool),
    Number(Seq<char>),
    Text(Seq<char>),
    Array(Seq<Seq<char>>),
    Object(Seq<(Seq<char>, Seq<char>)>),
}

impl View for JsonEntry {
    type V = (Seq<char>, Seq<char>);

    open spec fn view(&self) -> (Seq<char>, Seq<char>) {
        (self.key@, self.value@)
    }
}

/// The views of a sequence of object members.
pub open spec fn entry_views(es: Seq<JsonEntry>) -> Seq<(Seq<char>, Seq<char>)> {
    es.map_values(|e: JsonEntry| e@)
}

impl View for Json {
    type V = JsonView;

    open spec fn view(&self) -> JsonView {
        match self {
            Json::Null => JsonView::Null,
            Json::Boolean(b) => JsonView::Boolean(*b),
            Json::Number(t) => JsonView::Number(t@),
            Json::Text(s) => JsonView::Text(s@),
            Json::Array(items) => JsonView::Array(views(items@)),
            Json::Object(es) => JsonView::Object(entry_views(es@)),
        }
    }
}

/// What `json::parse` gives for a text, with each member of an array or an
/// object taken as its compact text; `None` where the text is not JSON.
pub uninterp spec fn json_parse(text: Seq<char>) -> Option<JsonView>;

/// A lower-case hexadecimal digit for a value below sixteen.
pub open spec fn hex_digit(d: int) -> char {
    if d < 10 {
        (48 + d) as char
    } else {
        (87 + d) as char
    }
}

/// How the `json` crate writes one character inside a string literal: `"`
/// and `\` behind a backslash; backspace, tab, line feed, form feed and
/// carriage return as `\b \t \n \f \r`; any other character below 0x20
/// as `\u00` and two lower-case hex digits; every other character as it is.
pub open spec fn escaped_char(c: char) -> Seq<char> {
    let n = c as int;
    if c == '"' {
        seq!['\\', '"']
    } else if c == '\\' {
        seq!['\\', '\\']
    } else if n == 8 {
        seq!['\\', 'b']
    } else if n == 9 {
        seq!['\\', 't']
    } else if n == 10 {
        seq!['\\', 'n']
    } else if n == 12 {
        seq!['\\', 'f']
    } else if n == 13 {
        seq!['\\', 'r']
    } else if n < 32 {
        seq!['\\', 'u', '0', '0', hex_digit(n / 16), hex_digit(n % 16)]
    } else {
        seq![c]
    }
}

/// The characters of a string, each written as [`escaped_char`] gives it.
pub open spec fn escaped(s: Seq<char>) -> Seq<char>
    decreases s.len(),
{
    if s.len() == 0 {
        Seq::empty()
    } else {
        escaped(s.drop_last()) + escaped_char(s.last())
    }
}

/// The JSON string literal that the `json` crate writes for a string: the
/// escaped characters between double quotes.
pub open spec fn json_quoted(s: Seq<char>) -> Seq<char> {
    seq!['"'] + escaped(s) + seq!['"']
}

/// Keys of a member sequence are pairwise distinct.
pub open spec fn distinct_keys(es: Seq<(Seq<char>, Seq<char>)>) -> bool {
    forall|i: int, j: int| 0 <= i < j < es.len() ==> es[i].0 != es[j].0
}

/// Parse a text with `json::parse`; an array's or an object's members are
/// kept as the compact text (`JsonValue::dump`) of each member.  The keys of a
/// parsed object are distinct: `Object::insert` replaces the value of a key
/// that is already present.
#[verifier::external_body]
pub fn parse_json(text: &str) -> (r: Option<Json>)
    ensures
        match r {
            Some(j) => json_parse(text@) == Some(j@),
            None => json_parse(text@) is None,
        },
        r matches Some(Json::Object(es)) ==> distinct_keys(entry_views(es@)),
{
    let v = json::parse(text).ok()?;
    Some(match &v {
        JsonValue::Null => Json::Null,
        JsonValue::Boolean(b) => Json::Boolean(*b),
        JsonValue::Number(_) => Json::Number(v.dump()),
        JsonValue::Short(s) => Json::Text(s.to_string()),
        JsonValue::String(s) => Json::Text(s.clone()),
        JsonValue::Array(a) => Json::Array(a.iter().map(|x| x.dump()).collect()),
        JsonValue::Object(o) => Json::Object(
            o.iter().map(|(k, x)| JsonEntry { key: k.to_string(), value: x.dump() }).collect(),
        ),
    })
}

/// `json::stringify` of a string: the string between double quotes, with
/// the characters the `json` crate escapes escaped as [`escaped_char`] says.
#[verifier::external_body]
pub fn quote(s: &str) -> (r: String)
    ensures
        r@ == json_quoted(s@),
{
    json::stringify(s)
}

/// The compact text of an array with the given member texts.
pub open spec fn array_text(items: Seq<Seq<char>>) -> Seq<char> {
    seq!['['] + join(items, seq![',']) + seq![']']
}

/// The compact text of one object member.
pub open spec fn member_text(e: (Seq<char>, Seq<char>)) -> Seq<char> {
    json_quoted(e.0) + seq![':'] + e.1
}

/// The compact text of an object with the given members.
pub open spec fn object_text(es: Seq<(Seq<char>, Seq<char>)>) -> Seq<char> {
    seq!['{'] + join(es.map_values(|e: (Seq<char>, Seq<char>)| member_text(e)), seq![',']) + seq!['}']
}

/// The compact text of a value (`JsonValue::dump`).
pub open spec fn json_text(j: JsonView) -> Seq<char> {
    match j {
        JsonView::Null => seq!['n', 'u', 'l', 'l'],
        JsonView::Boolean(b) => if b {
            seq!['t', 'r', 'u', 'e']
        } else {
            seq!['f', 'a', 'l', 's', 'e']
        },
        JsonView::Number(t) => t,
        JsonView::Text(s) => json_quoted(s),
        JsonView::Array(items) => array_text(items),
        JsonView::Object(es) => object_text(es),
    }
}

/// The value a member text stands for; a text that does not parse is read as null.
pub open spec fn member_value(text: Seq<char>) -> JsonView {
    match json_parse(text) {
        Some(v) => v,
        None => JsonView::Null,
    }
}

/// The position of the first member under `key`, if any.
pub open spec fn key_index(es: Seq<(Seq<char>, Seq<char>)>, key: Seq<char>) -> Option<int>
    decreases es.len(),
{
    if es.len() == 0 {
        None
    } else if es[0].0 == key {
        Some(0)
    } else {
        match key_index(es.drop_first(), key) {
            Some(i) => Some(i + 1),
            None => None,
        }
    }
}

/// The member text stored under `key` in an object, if any.
pub open spec fn lookup(es: Seq<(Seq<char>, Seq<char>)>, key: Seq<char>) -> Option<Seq<char>> {
    match key_index(es, key) {
        Some(i) => Some(es[i].1),
        None => None,
    }
}

/// `Object::insert`: replace the value of the member under `key`, or append
/// a new member when there is none.
pub open spec fn insert_member(
    es: Seq<(Seq<char>, Seq<char>)>,
    key: Seq<char>,
    value: Seq<char>,
) -> Seq<(Seq<char>, Seq<char>)> {
    match key_index(es, key) {
        Some(i) => es.update(i, (key, value)),
        None => es.push((key, value)),
    }
}

proof fn lemma_key_index(es: Seq<(Seq<char>, Seq<char>)>, key: Seq<char>, i: int)
    requires
        0 <= i <= es.len(),
        forall|j: int| 0 <= j < i ==> es[j].0 != key,
    ensures
        i < es.len() && es[i].0 == key ==> key_index(es, key) == Some(i),
        i == es.len() ==> key_index(es, key) is None,
    decreases i,
{
    if i > 0 {
        lemma_key_index(es.drop_first(), key, i - 1);
    } else if es.len() > 0 {
    }
}

/// `key_index` finds the first member under the key, and none when no member has it.
proof fn lemma_key_index_found(es: Seq<(Seq<char>, Seq<char>)>, key: Seq<char>)
    ensures
        match key_index(es, key) {
            Some(i) => 0 <= i < es.len() && es[i].0 == key && forall|j: int| 0 <= j < i ==> es[j].0 != key,
            None => forall|j: int| 0 <= j < es.len() ==> es[j].0 != key,
        },
    decreases es.len(),
{
    if es.len() > 0 && es[0].0 != key {
        let rest = es.drop_first();
        lemma_key_index_found(rest, key);
        match key_index(rest, key) {
            Some(i) => {
                assert forall|j: int| 0 <= j < i + 1 implies es[j].0 != key by {
                    if j > 0 {
                        assert(es[j] == rest[j - 1]);
                    }
                }
            },
            None => {
                assert forall|j: int| 0 <= j < es.len() implies es[j].0 != key by {
                    if j > 0 {
                        assert(es[j] == rest[j - 1]);
                    }
                }
            },
        }
    }
}

/// Reading a member back after `Object::insert` gives the inserted value,
/// and every other key reads as before.
pub proof fn lemma_insert_lookup(
    es: Seq<(Seq<char>, Seq<char>)>,
    key: Seq<char>,
    value: Seq<char>,
    other: Seq<char>,
)
    ensures
        lookup(insert_member(es, key, value), key) == Some(value),
        other != key ==> lookup(insert_member(es, key, value), other) == lookup(es, other),
{
    let u = insert_member(es, key, value);
    lemma_key_index_found(es, key);
    lemma_key_index_found(es, other);
    match key_index(es, key) {
        Some(i) => {
            assert(u == es.update(i, (key, value)));
            lemma_key_index(u, key, i);
            if other != key {
                match key_index(es, other) {
                    Some(j) => {
                        lemma_key_index(u, other, j);
                    },
                    None => {
                        lemma_key_index(u, other, u.len() as int);
                    },
                }
            }
        },
        None => {
            assert(u == es.push((key, value)));
            lemma_key_index(u, key, es.len() as int);
            if other != key {
                match key_index(es, other) {
                    Some(j) => {
                        lemma_key_index(u, other, j);
                    },
                    None => {
                        lemma_key_index(u, other, u.len() as int);
                    },
                }
            }
        },
    }
}

/// `Object::insert` keeps the keys of an object distinct.
pub proof fn lemma_insert_distinct(es: Seq<(Seq<char>, Seq<char>)>, key: Seq<char>, value: Seq<char>)
    requires
        distinct_keys(es),
    ensures
        distinct_keys(insert_member(es, key, value)),
{
    lemma_key_index_found(es, key);
}

/// `value[key]`: the member under `key` of an object; null when absent or
/// when `value` is not an object.
pub open spec fn value_at(value: JsonView, key: Seq<char>) -> JsonView {
    match value {
        JsonView::Object(es) => match lookup(es, key) {
            Some(t) => member_value(t),
            None => JsonView::Null,
        },
        _ => JsonView::Null,
    }
}

/// `value.has_key(key)`: `value` is an object with a member under `key`.
pub open spec fn has_key(value: JsonView, key: Seq<char>) -> bool {
    match value {
        JsonView::Object(es) => lookup(es, key) is Some,
        _ => false,
    }
}

/// `value.len()`: the number of elements of an array or members of an object, else 0.
pub open spec fn json_len(value: JsonView) -> nat {
    match value {
        JsonView::Object(es) => es.len(),
        JsonView::Array(items) => items.len(),
        _ => 0,
    }
}

/// `value.to_string()`: a string's own characters, any other value's compact text.
pub open spec fn display_text(value: JsonView) -> Seq<char> {
    match value {
        JsonView::Text(s) => s,
        _ => json_text(value),
    }
}

/// The text of a member as `to_string` shows it: a string member's
/// characters, any other member's compact text.
pub open spec fn member_display(text: Seq<char>) -> Seq<char> {
    match member_value(text) {
        JsonView::Text(s) => s,
        _ => text,
    }
}

/// An owned copy of a string slice.
pub fn owned(s: &str) -> (r: String)
    ensures
        r@ == s@,
{
    s.to_string()
}

impl Json {
    /// A copy of the value.
    pub fn duplicate(&self) -> (r: Json)
        ensures
            r@ == self@,
    {
        match self {
            Json::Null => Json::Null,
            Json::Boolean(b) => Json::Boolean(*b),
            Json::Number(t) => Json::Number(t.clone()),
            Json::Text(s) => Json::Text(s.clone()),
            Json::Array(items) => Json::Array(items.clone()),
            Json::Object(es) => Json::Object(clone_entries(es)),
        }
    }
}

/// A copy of a member sequence.
pub fn clone_entries(es: &Vec<JsonEntry>) -> (r: Vec<JsonEntry>)
    ensures
        entry_views(r@) == entry_views(es@),
{
    let mut r: Vec<JsonEntry> = Vec::new();
    let mut i: usize = 0;
    while i < es.len()
        invariant
            i <= es.len(),
            entry_views(r@) == entry_views(es@).take(i as int),
        decreases es.len() - i,
    {
        r.push(JsonEntry { key: es[i].key.clone(), value: es[i].value.clone() });
        proof {
            assert(entry_views(r@) == entry_views(r@.drop_last()).push(r@.last()@));
            assert(entry_views(es@).take(i + 1) == entry_views(es@).take(i as int).push(es@[i as int]@));
        }
        i = i + 1;
    }
    proof {
        assert(entry_views(es@).take(es.len() as int) == entry_views(es@));
    }
    r
}

/// The position of the first member of `es` under `key`.
pub fn find_key(es: &Vec<JsonEntry>, key: &str) -> (r: Option<usize>)
    ensures
        match r {
            Some(i) => key_index(entry_views(es@), key@) == Some(i as int) && i < es.len(),
            None => key_index(entry_views(es@), key@) is None,
        },
{
    let k = owned(key);
    let ghost ev = entry_views(es@);
    let mut i: usize = 0;
    while i < es.len()
        invariant
            i <= es.len(),
            k@ == key@,
            ev == entry_views(es@),
            forall|j: int| 0 <= j < i ==> ev[j].0 != key@,
        decreases es.len() - i,
    {
        if es[i].key == k {
            proof {
                lemma_key_index(ev, key@, i as int);
            }
            return Some(i);
        }
        i = i + 1;
    }
    proof {
        lemma_key_index(ev, key@, i as int);
    }
    None
}

/// The value a member text stands for (`json::parse` of the text; null if it
/// does not parse).
pub fn member(text: &str) -> (r: Json)
    ensures
        r@ == member_value(text@),
{
    match parse_json(text) {
        Some(v) => v,
        None => Json::Null,
    }
}

/// `value[key]`.
pub fn value_of(value: &Json, key: &str) -> (r: Json)
    ensures
        r@ == value_at(value@, key@),
{
    match value {
        Json::Object(es) => match find_key(es, key) {
            Some(i) => member(es[i].value.as_str()),
            None => Json::Null,
        },
        _ => Json::Null,
    }
}

/// `value.has_key(key)`.
pub fn contains_key(value: &Json, key: &str) -> (r: bool)
    ensures
        r == has_key(value@, key@),
{
    match value {
        Json::Object(es) => find_key(es, key).is_some(),
        _ => false,
    }
}

/// `value.len()`.
pub fn len_of(value: &Json) -> (r: usize)
    ensures
        r == json_len(value@),
{
    match value {
        Json::Object(es) => es.len(),
        Json::Array(items) => items.len(),
        _ => 0,
    }
}

/// `Object::insert(key, value)` on a member sequence.
pub fn insert_entry(es: &mut Vec<JsonEntry>, key: &str, value: String)
    ensures
        entry_views(final(es)@) == insert_member(entry_views(old(es)@), key@, value@),
{
    let k = owned(key);
    match find_key(es, key) {
        Some(i) => {
            let ghost before = es@;
            es.set(i, JsonEntry { key: k, value });
            proof {
                assert(entry_views(es@) =~= entry_views(before).update(i as int, (key@, value@)));
            }
        },
        None => {
            let ghost before = es@;
            es.push(JsonEntry { key: k, value });
            proof {
                assert(entry_views(es@) =~= entry_views(before).push((key@, value@)));
            }
        },
    }
}

/// The compact text of an array with the given member texts.
pub fn dump_array(items: &Vec<String>) -> (r: String)
    ensures
        r@ == array_text(views(items@)),
{
    proof {
        reveal_strlit(",");
        assert(","@ =~= seq![',']);
    }
    let mut r = String::new();
    push_char(&mut r, '[');
    let inner = join_strings(items, ",");
    push_str(&mut r, inner.as_str());
    push_char(&mut r, ']');
    r
}

/// The compact text of an object with the given members.
pub fn dump_object(es: &Vec<JsonEntry>) -> (r: String)
    ensures
        r@ == object_text(entry_views(es@)),
{
    let ghost ev = entry_views(es@);
    let ghost parts = ev.map_values(|e: (Seq<char>, Seq<char>)| member_text(e));
    let mut r = String::new();
    push_char(&mut r, '{');
    let mut i: usize = 0;
    while i < es.len()
        invariant
            i <= es.len(),
            ev == entry_views(es@),
            parts == ev.map_values(|e: (Seq<char>, Seq<char>)| member_text(e)),
            r@ == seq!['{'] + join(parts.take(i as int), seq![',']),
        decreases es.len() - i,
    {
        proof {
            assert(parts.take(i + 1).drop_last() == parts.take(i as int));
        }
        if i > 0 {
            push_char(&mut r, ',');
        }
        let q = quote(es[i].key.as_str());
        push_str(&mut r, q.as_str());
        push_char(&mut r, ':');
        push_str(&mut r, es[i].value.as_str());
        proof {
            assert(parts[i as int] == member_text(ev[i as int]));
            if i > 0 {
                assert(join(parts.take(i + 1), seq![',']) == join(parts.take(i as int), seq![',']) + seq![','] + parts[i as int]);
            }
            assert(r@ == seq!['{'] + join(parts.take(i + 1), seq![',']));
        }
        i = i + 1;
    }
    push_char(&mut r, '}');
    proof {
        assert(parts.take(es.len() as int) == parts);
    }
    r
}

/// The compact text of a value (`JsonValue::dump`).
pub fn dump(value: &Json) -> (r: String)
    ensures
        r@ == json_text(value@),
{
    proof {
        reveal_strlit("null");
        reveal_strlit("true");
        reveal_strlit("false");
    }
    match value {
        Json::Null => owned("null"),
        Json::Boolean(b) => if *b { owned("true") } else { owned("false") },
        Json::Number(t) => t.clone(),
        Json::Text(s) => quote(s.as_str()),
        Json::Array(items) => dump_array(items),
        Json::Object(es) => dump_object(es),
    }
}

/// `value.to_string()`.
pub fn display(value: &Json) -> (r: String)
    ensures
        r@ == display_text(value@),
{
    match value {
        Json::Text(s) => s.clone(),
        _ => dump(value),
    }
}

} // verus!
