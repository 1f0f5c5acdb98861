//! Topic rewriting, request field access and reply packaging.

use vstd::prelude::*;
use crate::json::{
    distinct_keys, lemma_insert_distinct, lemma_insert_lookup, lookup, array_text, insert_entry, json_parse, parse_json, insert_member, json_quoted, object_text, entry_views, owned,
    quote, dump_object, value_of, value_at, Json, JsonEntry, JsonView,
};
use crate::text::{
    free_of, join, join_strings, lemma_split_join, lemma_split_pieces_free, split_on, split_str, views,
};

verus! {

broadcast use vstd::string::group_string_axioms;

/// A column name (or condition key) and its value.
#[derive(Clone, Debug, PartialEq, Eq)]
pub struct KeyValue {
    pub key: String,
    pub value: String,
}

impl View for KeyValue {
    type V = (Seq<char>, Seq<char>);

    open spec fn view(&self) -> (Seq<char>, Seq<char>) {
        (self.key@, self.value@)
    }
}

/// The views of a sequence of key/value pairs.
pub open spec fn kv_views(kvs: Seq<KeyValue>) -> Seq<(Seq<char>, Seq<char>)> {
    kvs.map_values(|kv: KeyValue| kv@)
}

impl KeyValue {
    /// A pair made of two string slices.
    pub fn of(key: &str, value: &str) -> (r: KeyValue)
        ensures
            r@ == (key@, value@),
    {
        KeyValue { key: owned(key), value: owned(value) }
    }

    /// A copy of the pair.
    pub fn duplicate(&self) -> (r: KeyValue)
        ensures
            r@ == self@,
    {
        KeyValue { key: self.key.clone(), value: self.value.clone() }
    }
}

/// A copy of a sequence of pairs.
pub fn clone_kvs(kvs: &Vec<KeyValue>) -> (r: Vec<KeyValue>)
    ensures
        kv_views(r@) == kv_views(kvs@),
{
    let mut r: Vec<KeyValue> = Vec::new();
    let mut i: usize = 0;
    while i < kvs.len()
        invariant
            i <= kvs.len(),
            kv_views(r@) == kv_views(kvs@).take(i as int),
        decreases kvs.len() - i,
    {
        r.push(kvs[i].duplicate());
        proof {
            assert(kv_views(r@) == kv_views(r@.drop_last()).push(r@.last()@));
            assert(kv_views(kvs@).take(i + 1) == kv_views(kvs@).take(i as int).push(kvs@[i as int]@));
        }
        i = i + 1;
    }
    proof {
        assert(kv_views(kvs@).take(kvs.len() as int) == kv_views(kvs@));
    }
    r
}

/// A computation whose first result is kept: later requests give that result
/// without calling the computation again.
pub struct CacherExample<T: Fn(u32) -> u32> {
    pub callback: T,
    pub value: Option<u32>,
}

impl<T: Fn(u32) -> u32> CacherExample<T> {
    /// A cache that has not computed anything yet.
    pub fn new(cacher_example: T) -> (r: CacherExample<T>)
        ensures
            r.callback == cacher_example,
            r.value is None,
    {
        CacherExample { callback: cacher_example, value: None }
    }

    /// The kept result, or the computation's result for `arg`, which is kept.
    pub fn value(&mut self, arg: u32) -> (r: u32)
        requires
            old(self).value is None ==> call_requires(old(self).callback, (arg,)),
        ensures
            final(self).callback == old(self).callback,
            final(self).value == Some(r),
            match old(self).value {
                Some(v) => r == v,
                None => call_ensures(old(self).callback, (arg,), r),
            },
    {
        match self.value {
            Some(v) => v,
            None => {
                let v = (self.callback)(arg);
                self.value = Some(v);
                v
            },
        }
    }
}

/// The topic a reply goes to: a request topic `app/verb/kind/db/...` (at
/// least four `/`-separated segments) becomes `db/verb/response/app/...`;
/// any shorter topic gives the empty text.
pub open spec fn response_topic(topic: Seq<char>) -> Seq<char> {
    let v = split_on(topic, '/');
    if v.len() < 4 {
        Seq::empty()
    } else {
        join(v.update(0, v[3]).update(2, "response"@).update(3, v[0]), seq!['/'])
    }
}

/// The application name of a topic: its first segment when the topic has at
/// least four segments, else the empty text.
pub open spec fn app_name(topic: Seq<char>) -> Seq<char> {
    let v = split_on(topic, '/');
    if v.len() < 4 {
        Seq::empty()
    } else {
        v[0]
    }
}

/// The reply topic of a request topic with at least four segments has the
/// same segments, with the first and fourth swapped and the third replaced by
/// `response`.
pub proof fn lemma_response_segments(topic: Seq<char>)
    requires
        split_on(topic, '/').len() >= 4,
    ensures
        ({
            let v = split_on(topic, '/');
            split_on(response_topic(topic), '/') == v.update(0, v[3]).update(2, "response"@).update(3, v[0])
        }),
{
    reveal_strlit("response");
    let v = split_on(topic, '/');
    let w = v.update(0, v[3]).update(2, "response"@).update(3, v[0]);
    lemma_split_pieces_free(topic, '/');
    assert(free_of(v[0], '/'));
    assert(free_of(v[3], '/'));
    assert forall|i: int| 0 <= i < w.len() implies free_of(#[trigger] w[i], '/') by {
        if i != 0 && i != 2 && i != 3 {
            assert(w[i] == v[i]);
        }
    }
    lemma_split_join(w, '/');
}

/// A reply goes back to the application that sent the request: the reply
/// topic's fourth segment is the request's application name, and its first
/// segment is the request's fourth (the database).
pub proof fn lemma_reply_reaches_app(topic: Seq<char>)
    requires
        split_on(topic, '/').len() >= 4,
    ensures
        split_on(response_topic(topic), '/')[3] == app_name(topic),
        split_on(response_topic(topic), '/')[0] == split_on(topic, '/')[3],
        split_on(response_topic(topic), '/')[2] == "response"@,
        split_on(response_topic(topic), '/').len() == split_on(topic, '/').len(),
{
    lemma_response_segments(topic);
}

/// The reply topic for a request topic.
pub fn gen_topic(topic: &str) -> (r: String)
    ensures
        r@ == response_topic(topic@),
{
    let mut v = split_str(topic, '/');
    if v.len() < 4 {
        return String::new();
    }
    proof {
        reveal_strlit("/");
        assert("/"@ =~= seq!['/']);
    }
    let ghost v0 = views(v@);
    let appname = v[0].clone();
    let database = v[3].clone();
    v.set(0, database);
    v.set(2, owned("response"));
    v.set(3, appname);
    proof {
        assert(views(v@) =~= v0.update(0, v0[3]).update(2, "response"@).update(3, v0[0]));
    }
    join_strings(&v, "/")
}

/// The application name of a request topic.
pub fn get_appname(topic: &str) -> (r: String)
    ensures
        r@ == app_name(topic@),
{
    let v = split_str(topic, '/');
    if v.len() < 4 {
        return String::new();
    }
    v[0].clone()
}

/// The token to put into a reply.
pub fn gen_token(token: &str) -> (r: String)
    ensures
        r@ == token@,
{
    owned(token)
}

/// The `token` member of a request can be read: it is absent, null or a string.
pub open spec fn token_readable(message: JsonView) -> bool {
    value_at(message, "token"@) is Null || value_at(message, "token"@) is Text
}

/// The token of a request: its `token` string, or `123` when the member is
/// absent or null.
pub open spec fn token_of(message: JsonView) -> Seq<char> {
    match value_at(message, "token"@) {
        JsonView::Text(s) => s,
        _ => "123"@,
    }
}

/// The string stored under `key`, if the member is a string.
pub open spec fn text_field(message: JsonView, key: Seq<char>) -> Option<Seq<char>> {
    match value_at(message, key) {
        JsonView::Text(s) => Some(s),
        _ => None,
    }
}

/// The string stored under `key`, or the empty text.
pub open spec fn text_or_empty(message: JsonView, key: Seq<char>) -> Seq<char> {
    match text_field(message, key) {
        Some(s) => s,
        None => Seq::empty(),
    }
}

/// The elements stored under `key` if the member is an array, else none.
pub open spec fn array_field(message: JsonView, key: Seq<char>) -> Seq<Seq<char>> {
    match value_at(message, key) {
        JsonView::Array(items) => items,
        _ => Seq::empty(),
    }
}

/// Whether the `token` member can be read by [`get_token`].
pub fn token_is_readable(message: &Json) -> (r: bool)
    ensures
        r == token_readable(message@),
{
    match value_of(message, "token") {
        Json::Null => true,
        Json::Text(_) => true,
        _ => false,
    }
}

/// The token of a request.
pub fn get_token(message: &Json) -> (r: String)
    requires
        token_readable(message@),
    ensures
        r@ == token_of(message@),
{
    match value_of(message, "token") {
        Json::Text(s) => s,
        _ => owned("123"),
    }
}

/// The string stored under `key`, if that member is a string.
pub fn get_key_value_str(key: &str, message: &Json) -> (r: Option<String>)
    ensures
        match r {
            Some(s) => text_field(message@, key@) == Some(s@),
            None => text_field(message@, key@) is None,
        },
{
    match value_of(message, key) {
        Json::Text(s) => Some(s),
        _ => None,
    }
}

/// The string stored under `key`, or the empty text.
pub fn get_text_or_empty(key: &str, message: &Json) -> (r: String)
    ensures
        r@ == text_or_empty(message@, key@),
{
    match get_key_value_str(key, message) {
        Some(s) => s,
        None => String::new(),
    }
}

/// The array stored under `key`, or an empty array.
pub fn get_array_array(key: &str, message: &Json) -> (r: Json)
    ensures
        r@ == JsonView::Array(array_field(message@, key@)),
{
    match value_of(message, key) {
        Json::Array(items) => Json::Array(items),
        _ => {
            let empty: Vec<String> = Vec::new();
            proof {
                assert(views(empty@) =~= Seq::<Seq<char>>::empty());
            }
            Json::Array(empty)
        },
    }
}

/// The elements stored under `key` as member texts.
pub fn get_array_items(key: &str, message: &Json) -> (r: Vec<String>)
    ensures
        views(r@) == array_field(message@, key@),
{
    match value_of(message, key) {
        Json::Array(items) => items,
        _ => {
            let empty: Vec<String> = Vec::new();
            proof {
                assert(views(empty@) =~= Seq::<Seq<char>>::empty());
            }
            empty
        },
    }
}

/// The request a payload carries: the parsed payload, or an empty object
/// when the payload is not JSON.
pub open spec fn request_value(payload: Seq<char>) -> JsonView {
    match json_parse(payload) {
        Some(v) => v,
        None => JsonView::Object(Seq::empty()),
    }
}

/// Parse a payload into a request.
pub fn parse_request(payload: &str) -> (r: Json)
    ensures
        r@ == request_value(payload@),
{
    match parse_json(payload) {
        Some(v) => v,
        None => {
            let es: Vec<JsonEntry> = Vec::new();
            proof {
                assert(entry_views(es@) =~= Seq::<(Seq<char>, Seq<char>)>::empty());
            }
            Json::Object(es)
        },
    }
}

/// The request a payload carries, when its token can be read; none when the
/// `token` member is neither absent, null nor a string.
pub fn read_request(payload: &str) -> (r: Option<Json>)
    ensures
        match r {
            Some(j) => j@ == request_value(payload@) && token_readable(j@),
            None => !token_readable(request_value(payload@)),
        },
{
    let request = parse_request(payload);
    if token_is_readable(&request) {
        Some(request)
    } else {
        None
    }
}

/// The published text of a reply: the message object with `token` and
/// `timestamp` string members set (as `Object::insert` sets them), in compact form.
pub open spec fn packaged(
    token: Seq<char>,
    message: Seq<(Seq<char>, Seq<char>)>,
    timestamp: Seq<char>,
) -> Seq<char> {
    object_text(packaged_members(token, message, timestamp))
}

/// The members of a packaged reply: the message's, with `token` and
/// `timestamp` set to the given strings.
pub open spec fn packaged_members(
    token: Seq<char>,
    message: Seq<(Seq<char>, Seq<char>)>,
    timestamp: Seq<char>,
) -> Seq<(Seq<char>, Seq<char>)> {
    insert_member(insert_member(message, "token"@, json_quoted(token)), "timestamp"@, json_quoted(timestamp))
}

/// A packaged reply carries the token and the timestamp as string members,
/// every other member of the message unchanged, and no key twice when the
/// message had none twice.
pub proof fn lemma_packaged_members(
    token: Seq<char>,
    message: Seq<(Seq<char>, Seq<char>)>,
    timestamp: Seq<char>,
    key: Seq<char>,
)
    ensures
        lookup(packaged_members(token, message, timestamp), "token"@) == Some(json_quoted(token)),
        lookup(packaged_members(token, message, timestamp), "timestamp"@) == Some(json_quoted(timestamp)),
        key != "token"@ && key != "timestamp"@ ==> lookup(packaged_members(token, message, timestamp), key)
            == lookup(message, key),
        distinct_keys(message) ==> distinct_keys(packaged_members(token, message, timestamp)),
{
    reveal_strlit("token");
    reveal_strlit("timestamp");
    assert("token"@ != "timestamp"@) by {
        assert("token"@.len() != "timestamp"@.len());
    }
    let m1 = insert_member(message, "token"@, json_quoted(token));
    lemma_insert_lookup(message, "token"@, json_quoted(token), key);
    lemma_insert_lookup(m1, "timestamp"@, json_quoted(timestamp), "token"@);
    lemma_insert_lookup(m1, "timestamp"@, json_quoted(timestamp), key);
    if distinct_keys(message) {
        lemma_insert_distinct(message, "token"@, json_quoted(token));
        lemma_insert_distinct(m1, "timestamp"@, json_quoted(timestamp));
    }
}

/// The published text of a reply made at the given time.
pub fn package_message_at(token: &str, message: Vec<JsonEntry>, timestamp: &str) -> (r: String)
    ensures
        r@ == packaged(token@, entry_views(message@), timestamp@),
{
    let mut message = message;
    let token = gen_token(token);
    insert_entry(&mut message, "token", quote(token.as_str()));
    insert_entry(&mut message, "timestamp", quote(timestamp));
    dump_object(&message)
}

/// `c` is a decimal digit.
pub open spec fn is_digit(c: char) -> bool {
    48 <= c as int <= 57
}

/// The two characters of `s` at `i` are digits whose value lies in `lo..=hi`.
pub open spec fn two_digits_within(s: Seq<char>, i: int, lo: int, hi: int) -> bool {
    &&& is_digit(s[i])
    &&& is_digit(s[i + 1])
    &&& lo <= (s[i] as int - 48) * 10 + (s[i + 1] as int - 48) <= hi
}

/// A year as `%Y` writes it: at least four digits, after a `+` or `-` sign
/// when it has one.
pub open spec fn year_text(y: Seq<char>) -> bool {
    let digits = if y.len() > 0 && (y[0] == '+' || y[0] == '-') {
        y.drop_first()
    } else {
        y
    };
    &&& digits.len() >= 4
    &&& forall|i: int| 0 <= i < digits.len() ==> is_digit(#[trigger] digits[i])
}

/// A UTC time as `%Y-%m-%dT%H:%M:%SZ` writes it: the year, then
/// `-MM-DDTHH:MM:SSZ` with month 01 to 12, day 01 to 31, hour 00 to 23,
/// minute 00 to 59 and second 00 to 60.
pub open spec fn timestamp_text(s: Seq<char>) -> bool {
    let n = s.len();
    let t = s.skip(n - 16);
    &&& n >= 20
    &&& year_text(s.take(n - 16))
    &&& t[0] == '-'
    &&& two_digits_within(t, 1, 1, 12)
    &&& t[3] == '-'
    &&& two_digits_within(t, 4, 1, 31)
    &&& t[6] == 'T'
    &&& two_digits_within(t, 7, 0, 23)
    &&& t[9] == ':'
    &&& two_digits_within(t, 10, 0, 59)
    &&& t[12] == ':'
    &&& two_digits_within(t, 13, 0, 60)
    &&& t[15] == 'Z'
}

/// `chrono::Utc::now`, rendered with `DateTime::format` and the given
/// strftime pattern. Which time it shows depends on the clock and is not
/// stated; the shape chrono documents for each field of the pattern is.
/// Only the well-formed pattern of reply timestamps is accepted, as rendering
/// a malformed pattern fails.
#[verifier::external_body]
fn utc_now_formatted(fmt: &str) -> (r: String)
    requires
        fmt@ == "%Y-%m-%dT%H:%M:%SZ"@,
    ensures
        timestamp_text(r@),
{
    chrono::Utc::now().format(fmt).to_string()
}

/// The current UTC time as `YYYY-MM-DDTHH:MM:SSZ`.
pub fn gen_timestamp() -> (r: String)
    ensures
        timestamp_text(r@),
{
    utc_now_formatted("%Y-%m-%dT%H:%M:%SZ")
}

/// The published text of a reply: the message with the token and the current
/// time added.
pub fn package_message(token: &str, message: Vec<JsonEntry>) -> (r: String)
    ensures
        exists|ts: Seq<char>| timestamp_text(ts) && r@ == packaged(token@, entry_views(message@), ts),
{
    let ts = gen_timestamp();
    package_message_at(token, message, ts.as_str())
}

} // verus!
