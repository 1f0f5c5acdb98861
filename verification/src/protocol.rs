//! The exchange between a request session and the database it works on:
//! a session asks for one statement at a time, is told its outcome, and
//! finally hands back the reply to publish.

use vstd::prelude::*;
use crate::common::{kv_views, KeyValue};
use crate::json::{array_text, dump_array, entry_views, json_quoted, owned, quote, JsonEntry};
use crate::sql::rows_view;
use crate::text::views;

verus! {

broadcast use vstd::string::group_string_axioms;

/// One database operation, named after the database method that performs it.
#[derive(Debug, PartialEq, Eq)]
pub enum DbRequest {
    CreateTable { table: String, params: Vec<KeyValue> },
    CheckTable { table: String },
    DeleteTable { table: String },
    ExistsData { table: String, params: Vec<KeyValue> },
    InsertOneData { table: String, params: Vec<KeyValue> },
    SelectData { table: String, params: Vec<KeyValue> },
    SelectAll { table: String },
    SelectColumnAll { table: String, key: String },
    SelectByColumn { table: String, keys: Vec<String>, params: Vec<KeyValue> },
    UpdateData { table: String, conditions: Vec<KeyValue>, params: Vec<KeyValue> },
    DeleteData { table: String, params: Vec<KeyValue> },
}

/// Key/value pairs as text pairs.
pub type Pairs = Seq<(Seq<char>, Seq<char>)>;

/// The mathematical form of [`DbRequest`].
pub enum DbRequestView {
    CreateTable { table: Seq<char>, params: Pairs },
    CheckTable { table: Seq<char> },
    DeleteTable { table: Seq<char> },
    ExistsData { table: Seq<char>, params: Pairs },
    InsertOneData { table: Seq<char>, params: Pairs },
    SelectData { table: Seq<char>, params: Pairs },
    SelectAll { table: Seq<char> },
    SelectColumnAll { table: Seq<char>, key: Seq<char> },
    SelectByColumn { table: Seq<char>, keys: Seq<Seq<char>>, params: Pairs },
    UpdateData { table: Seq<char>, conditions: Pairs, params: Pairs },
    DeleteData { table: Seq<char>, params: Pairs },
}

impl View for DbRequest {
    type V = DbRequestView;

    open spec fn view(&self) -> DbRequestView {
        match self {
            DbRequest::CreateTable { table, params } => DbRequestView::CreateTable {
                table: table@,
                params: kv_views(params@),
            },
            DbRequest::CheckTable { table } => DbRequestView::CheckTable { table: table@ },
            DbRequest::DeleteTable { table } => DbRequestView::DeleteTable { table: table@ },
            DbRequest::ExistsData { table, params } => DbRequestView::ExistsData {
                table: table@,
                params: kv_views(params@),
            },
            DbRequest::InsertOneData { table, params } => DbRequestView::InsertOneData {
                table: table@,
                params: kv_views(params@),
            },
            DbRequest::SelectData { table, params } => DbRequestView::SelectData {
                table: table@,
                params: kv_views(params@),
            },
            DbRequest::SelectAll { table } => DbRequestView::SelectAll { table: table@ },
            DbRequest::SelectColumnAll { table, key } => DbRequestView::SelectColumnAll {
                table: table@,
                key: key@,
            },
            DbRequest::SelectByColumn { table, keys, params } => DbRequestView::SelectByColumn {
                table: table@,
                keys: views(keys@),
                params: kv_views(params@),
            },
            DbRequest::UpdateData { table, conditions, params } => DbRequestView::UpdateData {
                table: table@,
                conditions: kv_views(conditions@),
                params: kv_views(params@),
            },
            DbRequest::DeleteData { table, params } => DbRequestView::DeleteData {
                table: table@,
                params: kv_views(params@),
            },
        }
    }
}

/// The outcome of a database operation: a flag (`None` when the operation
/// failed) or result rows (`None` when the query failed).
#[derive(Debug, PartialEq, Eq)]
pub enum DbReply {
    Flag(Option<bool>),
    Rows(Option<Vec<Vec<String>>>),
}

/// Result rows as texts.
pub type Rows = Seq<Seq<Seq<char>>>;

/// The mathematical form of [`DbReply`].
pub enum DbReplyView {
    Flag(Option<bool>),
    Rows(Option<Rows>),
}

impl View for DbReply {
    type V = DbReplyView;

    open spec fn view(&self) -> DbReplyView {
        match self {
            DbReply::Flag(f) => DbReplyView::Flag(*f),
            DbReply::Rows(None) => DbReplyView::Rows(None),
            DbReply::Rows(Some(rows)) => DbReplyView::Rows(Some(rows_view(rows@))),
        }
    }
}

/// The flag of a reply; rows or a failure give none.
pub open spec fn flag_of(reply: DbReplyView) -> Option<bool> {
    match reply {
        DbReplyView::Flag(f) => f,
        _ => None,
    }
}

/// Every row has at least one cell.
pub open spec fn rows_nonempty(rows: Rows) -> bool {
    forall|i: int| 0 <= i < rows.len() ==> #[trigger] rows[i].len() > 0
}

/// Every row has between `lo` and `hi` cells.
pub open spec fn rows_within(rows: Rows, lo: int, hi: int) -> bool {
    forall|i: int| 0 <= i < rows.len() ==> lo <= #[trigger] rows[i].len() <= hi
}

/// The rows of a reply; a failed query or a flag gives no rows.
pub open spec fn rows_of(reply: DbReplyView) -> Rows {
    match reply {
        DbReplyView::Rows(Some(rows)) => rows,
        _ => Seq::empty(),
    }
}

/// A reply to publish: its topic, the token to stamp it with, and the members
/// of its message object.
#[derive(Debug, PartialEq, Eq)]
pub struct Response {
    pub topic: String,
    pub token: String,
    pub message: Vec<JsonEntry>,
}

/// The mathematical form of [`Response`].
pub struct ResponseView {
    pub topic: Seq<char>,
    pub token: Seq<char>,
    pub message: Pairs,
}

impl View for Response {
    type V = ResponseView;

    open spec fn view(&self) -> ResponseView {
        ResponseView { topic: self.topic@, token: self.token@, message: entry_views(self.message@) }
    }
}

/// What a session does next.
#[derive(Debug, PartialEq, Eq)]
pub enum Step {
    /// Run this operation and pass its outcome to the session.
    Query(DbRequest),
    /// Publish this reply; the session is over.
    Respond(Response),
    /// The session is over and nothing is published.
    Quit,
}

/// The mathematical form of [`Step`].
pub enum StepView {
    Query(DbRequestView),
    Respond(ResponseView),
    Quit,
}

impl View for Step {
    type V = StepView;

    open spec fn view(&self) -> StepView {
        match self {
            Step::Query(q) => StepView::Query(q@),
            Step::Respond(r) => StepView::Respond(r@),
            Step::Quit => StepView::Quit,
        }
    }
}

/// A reply, if the step is one, goes to `topic` and carries `token`.
pub open spec fn answers_to(step: StepView, topic: Seq<char>, token: Seq<char>) -> bool {
    step matches StepView::Respond(r) ==> r.topic == topic && r.token == token
}

/// `{"status": "OK"}` or `{"status": "FAILURE"}`.
pub open spec fn status_message(ok: bool) -> Pairs {
    seq![("status"@, json_quoted(if ok { "OK"@ } else { "FAILURE"@ }))]
}

/// `{"body": [items]}`.
pub open spec fn body_message(items: Seq<Seq<char>>) -> Pairs {
    seq![("body"@, array_text(items))]
}

/// A status reply.
pub open spec fn status_reply(topic: Seq<char>, token: Seq<char>, ok: bool) -> StepView {
    StepView::Respond(ResponseView { topic, token, message: status_message(ok) })
}

/// A reply carrying a body array.
pub open spec fn body_reply(topic: Seq<char>, token: Seq<char>, items: Seq<Seq<char>>) -> StepView {
    StepView::Respond(ResponseView { topic, token, message: body_message(items) })
}

/// A member made of a key and a value text.
pub fn entry(key: &str, value: String) -> (r: JsonEntry)
    ensures
        r@ == (key@, value@),
{
    JsonEntry { key: owned(key), value }
}

/// A member holding a JSON string.
pub fn text_entry(key: &str, value: &str) -> (r: JsonEntry)
    ensures
        r@ == (key@, json_quoted(value@)),
{
    JsonEntry { key: owned(key), value: quote(value) }
}

/// A status reply.
pub fn status_response(topic: &String, token: &String, ok: bool) -> (r: Step)
    ensures
        r@ == status_reply(topic@, token@, ok),
{
    let e = if ok { text_entry("status", "OK") } else { text_entry("status", "FAILURE") };
    let mut message: Vec<JsonEntry> = Vec::new();
    message.push(e);
    proof {
        assert(entry_views(message@) =~= status_message(ok));
    }
    Step::Respond(Response { topic: topic.clone(), token: token.clone(), message })
}

/// A reply carrying a body array.
pub fn body_response(topic: &String, token: &String, items: &Vec<String>) -> (r: Step)
    ensures
        r@ == body_reply(topic@, token@, views(items@)),
{
    let e = entry("body", dump_array(items));
    let mut message: Vec<JsonEntry> = Vec::new();
    message.push(e);
    proof {
        assert(entry_views(message@) =~= body_message(views(items@)));
    }
    Step::Respond(Response { topic: topic.clone(), token: token.clone(), message })
}

/// Whether every row of a reply has between `lo` and `hi` cells.
pub fn reply_rows_within(reply: &DbReply, lo: usize, hi: usize) -> (r: bool)
    ensures
        r == rows_within(rows_of(reply@), lo as int, hi as int),
{
    match reply {
        DbReply::Rows(Some(rows)) => {
            let ghost rv = rows_view(rows@);
            let mut i: usize = 0;
            while i < rows.len()
                invariant
                    i <= rows.len(),
                    rv == rows_view(rows@),
                    rv == rows_of(reply@),
                    forall|k: int| 0 <= k < i ==> lo <= #[trigger] rv[k].len() <= hi,
                decreases rows.len() - i,
            {
                proof {
                    assert(rv[i as int].len() == rows@[i as int].len());
                }
                if rows[i].len() < lo || rows[i].len() > hi {
                    return false;
                }
                i = i + 1;
            }
            true
        },
        _ => true,
    }
}

/// Whether every row of a reply has a cell.
pub fn reply_rows_nonempty(reply: &DbReply) -> (r: bool)
    ensures
        r == rows_nonempty(rows_of(reply@)),
{
    let r = reply_rows_within(reply, 1, usize::MAX);
    proof {
        match reply@ {
            DbReplyView::Rows(Some(rv)) => {
                match reply {
                    DbReply::Rows(Some(rows)) => {
                        assert forall|i: int| 0 <= i < rv.len() implies #[trigger] rv[i].len() <= usize::MAX by {
                            assert(rv[i].len() == rows@[i].len());
                        }
                    },
                    _ => {},
                }
            },
            _ => {},
        }
    }
    r
}

/// The flag of a reply.
pub fn reply_flag(reply: &DbReply) -> (r: Option<bool>)
    ensures
        r == flag_of(reply@),
{
    match reply {
        DbReply::Flag(f) => *f,
        _ => None,
    }
}

} // verus!
