//! Model definitions: storing one, reading some back, listing them, deleting some.

use vstd::prelude::*;
use crate::common::{
    read_request, request_value,
    array_field, clone_kvs, gen_topic, get_array_items, get_text_or_empty, get_token, kv_views,
    response_topic, text_or_empty, token_of, token_readable, KeyValue,
};
use crate::deals::realtime::reading_name;
use crate::deals::removal::{targets_view, RemovalSession};
use crate::json::{
    array_text, dump, dump_array, dump_object, entry_views, json_len, json_quoted, json_text,
    len_of, member, member_display, member_value, object_text, owned, parse_json, Json,
    JsonEntry, JsonView,
};
use crate::protocol::{
    status_message,
    answers_to,
    reply_rows_nonempty, rows_nonempty, body_reply, body_response, entry, flag_of, reply_flag, rows_of, status_reply,
    status_response, text_entry, DbReply, DbReplyView, DbRequest, DbRequestView, Pairs, Rows,
    Step, StepView,
};
use crate::sql::rows_view;
use crate::text::{replace_char, replace_chars, views};

verus! {

broadcast use vstd::string::group_string_axioms;

/// The columns a model defines: one `name  TEXT` per entry with a name, in order.
pub open spec fn model_columns(items: Seq<Seq<char>>) -> Pairs
    decreases items.len(),
{
    if items.len() == 0 {
        Seq::empty()
    } else {
        let cols = model_columns(items.drop_last());
        let n = reading_name(items.last());
        if n.len() == 0 {
            cols
        } else {
            cols.push((n, "TEXT"@))
        }
    }
}

/// The table of a model: a `guid` column, then the model's own columns.
pub open spec fn model_definition(request: JsonView) -> Pairs {
    seq![("guid"@, "TEXT"@)] + model_columns(array_field(request, "body"@))
}

/// The row describing a model: its name, and its entries as compact JSON
/// with `"` turned into `'`.
pub open spec fn model_record(request: JsonView) -> Pairs {
    seq![
        ("name"@, text_or_empty(request, "model"@)),
        ("params"@, replace_char(array_text(array_field(request, "body"@)), '"', '\'')),
    ]
}

/// A model definition is stored only for a non-empty request naming a model
/// with at least one named column.
pub open spec fn model_acceptable(request: JsonView) -> bool {
    &&& json_len(request) > 0
    &&& text_or_empty(request, "model"@).len() > 0
    &&& model_columns(array_field(request, "body"@)).len() > 0
}

/// Where storing a model definition stands.
#[derive(Clone, Copy, Debug, PartialEq, Eq, Structural)]
pub enum ModelPhase {
    /// Waiting for whether the model already has a row.
    CheckModel,
    /// Waiting for the model's row to be written.
    Write,
    /// Waiting for the model's table to be dropped.
    DropTable,
    /// Waiting for the model's table to be created.
    CreateTable,
    Finished,
}

/// Storing a model definition.
pub struct ModelSetSession {
    pub topic: String,
    pub token: String,
    pub model: String,
    pub record: Vec<KeyValue>,
    pub columns: Vec<KeyValue>,
    pub phase: ModelPhase,
}

impl ModelSetSession {
    /// A bound on the database operations the session may still ask for.
    pub open spec fn pending(&self) -> nat {
        match self.phase {
            ModelPhase::CheckModel => 4,
            ModelPhase::Write => 3,
            ModelPhase::DropTable => 2,
            ModelPhase::CreateTable => 1,
            ModelPhase::Finished => 0,
        }
    }

    /// The phase and step that follow a reply.
    pub open spec fn after(&self, reply: DbReplyView) -> (ModelPhase, StepView) {
        match self.phase {
            ModelPhase::CheckModel => match flag_of(reply) {
                Some(true) => (
                    ModelPhase::Write,
                    StepView::Query(
                        DbRequestView::UpdateData {
                            table: "model"@,
                            conditions: seq![("name"@, self.model@)],
                            params: kv_views(self.record@),
                        },
                    ),
                ),
                Some(false) => (
                    ModelPhase::Write,
                    StepView::Query(
                        DbRequestView::InsertOneData { table: "model"@, params: kv_views(self.record@) },
                    ),
                ),
                None => (ModelPhase::Finished, status_reply(self.topic@, self.token@, false)),
            },
            ModelPhase::Write => (
                ModelPhase::DropTable,
                StepView::Query(DbRequestView::DeleteTable { table: self.model@ }),
            ),
            ModelPhase::DropTable => (
                ModelPhase::CreateTable,
                StepView::Query(
                    DbRequestView::CreateTable { table: self.model@, params: kv_views(self.columns@) },
                ),
            ),
            ModelPhase::CreateTable => (ModelPhase::Finished, status_reply(self.topic@, self.token@, true)),
            ModelPhase::Finished => (ModelPhase::Finished, StepView::Quit),
        }
    }

    /// What starting to store a model gives for a request topic and request.
    pub open spec fn opened(topic: Seq<char>, request: JsonView, s: Self, step: StepView) -> bool {
        &&& s.topic@ == response_topic(topic)
        &&& s.token@ == token_of(request)
        &&& answers_to(step, s.topic@, s.token@)
        &&& model_acceptable(request) ==> {
            &&& s.phase == ModelPhase::CheckModel
            &&& s.model@ == text_or_empty(request, "model"@)
            &&& kv_views(s.record@) == model_record(request)
            &&& kv_views(s.columns@) == model_definition(request)
            &&& step == StepView::Query(
                DbRequestView::ExistsData { table: "model"@, params: seq![("name"@, s.model@)] },
            )
        }
        &&& !model_acceptable(request) ==> {
            &&& s.phase == ModelPhase::Finished
            &&& step == status_reply(s.topic@, s.token@, false)
        }
    }

    /// Begin storing the model definition a request carries.
    pub fn start(topic: &str, request: &Json) -> (r: (ModelSetSession, Step))
        requires
            token_readable(request@),
        ensures
            Self::opened(topic@, request@, r.0, r.1@),
    {
        let reply_topic = gen_topic(topic);
        let token = get_token(request);
        let model = get_text_or_empty("model", request);
        let models = get_array_items("body", request);
        let ghost items = views(models@);
        let mut columns: Vec<KeyValue> = Vec::new();
        columns.push(KeyValue::of("guid", "TEXT"));
        let mut i: usize = 0;
        while i < models.len()
            invariant
                i <= models.len(),
                items == views(models@),
                kv_views(columns@) == seq![("guid"@, "TEXT"@)] + model_columns(items.take(i as int)),
            decreases models.len() - i,
        {
            proof {
                assert(items.take(i + 1).drop_last() == items.take(i as int));
                assert(items[i as int] == models@[i as int]@);
            }
            let row = member(models[i].as_str());
            let name = get_text_or_empty("name", &row);
            if !name.as_str().is_empty() {
                let ghost before = kv_views(columns@);
                columns.push(KeyValue { key: name, value: owned("TEXT") });
                proof {
                    assert(kv_views(columns@) == before.push(columns@.last()@));
                    assert(before.push(columns@.last()@) =~= seq![("guid"@, "TEXT"@)] + model_columns(
                        items.take(i + 1),
                    ));
                }
            }
            i = i + 1;
        }
        proof {
            assert(items.take(models.len() as int) == items);
        }
        let mut record: Vec<KeyValue> = Vec::new();
        record.push(KeyValue { key: owned("name"), value: model.clone() });
        let listed = dump_array(&models);
        record.push(KeyValue { key: owned("params"), value: replace_chars(listed.as_str(), '"', '\'') });
        proof {
            assert(kv_views(record@) =~= model_record(request@));
        }
        let acceptable = len_of(request) > 0 && !model.as_str().is_empty() && columns.len() > 1;
        if !acceptable {
            let step = status_response(&reply_topic, &token, false);
            let session = ModelSetSession {
                topic: reply_topic,
                token,
                model,
                record,
                columns,
                phase: ModelPhase::Finished,
            };
            return (session, step);
        }
        let mut params: Vec<KeyValue> = Vec::new();
        params.push(KeyValue { key: owned("name"), value: model.clone() });
        proof {
            assert(kv_views(params@) =~= seq![("name"@, model@)]);
        }
        let step = Step::Query(DbRequest::ExistsData { table: owned("model"), params });
        let session = ModelSetSession {
            topic: reply_topic,
            token,
            model,
            record,
            columns,
            phase: ModelPhase::CheckModel,
        };
        (session, step)
    }

    /// Take the outcome of the pending operation: the model's row is updated
    /// or inserted, then its table dropped and created anew.
    pub fn resume(&mut self, reply: DbReply) -> (r: Step)
        ensures
            answers_to(r@, old(self).topic@, old(self).token@),
            final(self).topic == old(self).topic,
            final(self).token == old(self).token,
            final(self).model == old(self).model,
            final(self).record == old(self).record,
            final(self).columns == old(self).columns,
            (final(self).phase, r@) == old(self).after(reply@),
            r@ is Query ==> final(self).pending() < old(self).pending(),
    {
        match self.phase {
            ModelPhase::CheckModel => match reply_flag(&reply) {
                Some(true) => {
                    let mut conditions: Vec<KeyValue> = Vec::new();
                    conditions.push(KeyValue { key: owned("name"), value: self.model.clone() });
                    proof {
                        assert(kv_views(conditions@) =~= seq![("name"@, self.model@)]);
                    }
                    self.phase = ModelPhase::Write;
                    Step::Query(
                        DbRequest::UpdateData {
                            table: owned("model"),
                            conditions,
                            params: clone_kvs(&self.record),
                        },
                    )
                },
                Some(false) => {
                    self.phase = ModelPhase::Write;
                    Step::Query(DbRequest::InsertOneData { table: owned("model"), params: clone_kvs(&self.record) })
                },
                None => {
                    self.phase = ModelPhase::Finished;
                    status_response(&self.topic, &self.token, false)
                },
            },
            ModelPhase::Write => {
                self.phase = ModelPhase::DropTable;
                Step::Query(DbRequest::DeleteTable { table: self.model.clone() })
            },
            ModelPhase::DropTable => {
                self.phase = ModelPhase::CreateTable;
                Step::Query(DbRequest::CreateTable { table: self.model.clone(), params: clone_kvs(&self.columns) })
            },
            ModelPhase::CreateTable => {
                self.phase = ModelPhase::Finished;
                status_response(&self.topic, &self.token, true)
            },
            ModelPhase::Finished => Step::Quit,
        }
    }
}

/// Storing a model definition: an existing model's row is updated where its
/// name matches and nowhere else, a new model's row is inserted, a failed
/// check ends with `FAILURE` and writes nothing; the model's table is
/// dropped only after its row was written, created anew with the model's
/// columns only after the drop, and `OK` follows only the creation.
pub proof fn lemma_model_set_steps(s: ModelSetSession, reply: DbReplyView)
    ensures
        s.phase == ModelPhase::CheckModel && flag_of(reply) == Some(true) ==> s.after(reply).1 == StepView::Query(
            DbRequestView::UpdateData { table: "model"@, conditions: seq![("name"@, s.model@)], params: kv_views(s.record@) },
        ),
        s.phase == ModelPhase::CheckModel && flag_of(reply) == Some(false) ==> s.after(reply).1 == StepView::Query(
            DbRequestView::InsertOneData { table: "model"@, params: kv_views(s.record@) },
        ),
        s.phase == ModelPhase::CheckModel && flag_of(reply) is None ==> s.after(reply) == (
            ModelPhase::Finished,
            status_reply(s.topic@, s.token@, false),
        ),
        s.after(reply).0 == ModelPhase::DropTable ==> s.phase == ModelPhase::Write && s.after(reply).1
            == StepView::Query(DbRequestView::DeleteTable { table: s.model@ }),
        s.after(reply).0 == ModelPhase::CreateTable ==> s.phase == ModelPhase::DropTable && s.after(reply).1
            == StepView::Query(DbRequestView::CreateTable { table: s.model@, params: kv_views(s.columns@) }),
        s.after(reply).1 == status_reply(s.topic@, s.token@, true) ==> s.phase == ModelPhase::CreateTable,
{
    reveal_strlit("OK");
    reveal_strlit("FAILURE");
    assert(status_reply(s.topic@, s.token@, true) != status_reply(s.topic@, s.token@, false)) by {
        assert("OK"@.len() != "FAILURE"@.len());
        assert(status_message(true)[0].1 != status_message(false)[0].1) by {
            assert(json_quoted("OK"@) != json_quoted("FAILURE"@)) by {
                reveal_with_fuel(crate::json::escaped, 8);
                assert(json_quoted("OK"@).len() != json_quoted("FAILURE"@).len());
            }
        }
    }
}

/// The model names a request lists: each entry of its `body` array as
/// `to_string` shows it.
pub open spec fn model_names(request: JsonView) -> Seq<Seq<char>> {
    array_field(request, "body"@).map_values(|t: Seq<char>| member_display(t))
}

/// The names of a request's `body` entries.
fn listed_names(request: &Json) -> (r: Vec<String>)
    ensures
        views(r@) == model_names(request@),
{
    let items = get_array_items("body", request);
    let ghost target = model_names(request@);
    let mut names: Vec<String> = Vec::new();
    let mut i: usize = 0;
    while i < items.len()
        invariant
            i <= items.len(),
            views(items@) == array_field(request@, "body"@),
            target == model_names(request@),
            views(names@) == target.take(i as int),
        decreases items.len() - i,
    {
        proof {
            assert(views(items@)[i as int] == items@[i as int]@);
        }
        let shown = match member(items[i].as_str()) {
            Json::Text(s) => s,
            _ => items[i].clone(),
        };
        names.push(shown);
        proof {
            assert(views(names@) == views(names@.drop_last()).push(names@.last()@));
            assert(target.take(i + 1) == target.take(i as int).push(target[i as int]));
        }
        i = i + 1;
    }
    proof {
        assert(target.take(items.len() as int) == target);
    }
    names
}

/// The condition selecting the model row of a name.
fn name_condition(name: &String) -> (r: Vec<KeyValue>)
    ensures
        kv_views(r@) == seq![("name"@, name@)],
{
    let mut c: Vec<KeyValue> = Vec::new();
    c.push(KeyValue { key: owned("name"), value: name.clone() });
    proof {
        assert(kv_views(c@) =~= seq![("name"@, name@)]);
    }
    c
}

/// The stored definition text as JSON: `'` turned back into `"`, parsed and
/// written compactly; an empty array when it does not parse.
pub open spec fn definition_json(c: Seq<char>) -> Seq<char> {
    match crate::json::json_parse(replace_char(c, '\'', '"')) {
        Some(v) => json_text(v),
        None => "[]"@,
    }
}

/// The reply item for a model's rows: `{"model": name, "body": definition}`
/// from the first row; no item when there is no row.
pub open spec fn model_item(rows: Rows) -> Seq<Seq<char>> {
    if rows.len() == 0 {
        Seq::empty()
    } else {
        seq![
            object_text(
                seq![("model"@, json_quoted(rows[0][0])), ("body"@, definition_json(rows[0][1]))],
            ),
        ]
    }
}

/// Reading model definitions back, one query per listed name.
pub struct ModelGetSession {
    pub topic: String,
    pub token: String,
    pub names: Vec<String>,
    pub items: Vec<String>,
    pub next: usize,
}

impl ModelGetSession {
    /// A bound on the database operations the session may still ask for.
    pub open spec fn pending(&self) -> nat {
        (self.names.len() - self.next) as nat
    }

    pub open spec fn wf(&self) -> bool {
        self.next <= self.names.len()
    }

    /// The next name's query, or the reply with every item found.
    pub open spec fn step_after(&self) -> StepView {
        if self.next < self.names.len() {
            StepView::Query(
                DbRequestView::SelectData {
                    table: "model"@,
                    params: seq![("name"@, self.names@[self.next as int]@)],
                },
            )
        } else {
            body_reply(self.topic@, self.token@, views(self.items@))
        }
    }

    fn current(&self) -> (r: Step)
        requires
            self.wf(),
        ensures
            r@ == self.step_after(),
    {
        if self.next < self.names.len() {
            Step::Query(DbRequest::SelectData { table: owned("model"), params: name_condition(&self.names[self.next]) })
        } else {
            body_response(&self.topic, &self.token, &self.items)
        }
    }

    /// What starting to read models back gives for a request topic and request.
    pub open spec fn opened(topic: Seq<char>, request: JsonView, s: Self, step: StepView) -> bool {
        &&& s.wf()
        &&& s.topic@ == response_topic(topic)
        &&& s.token@ == token_of(request)
        &&& answers_to(step, s.topic@, s.token@)
        &&& views(s.names@) == model_names(request)
        &&& s.items@.len() == 0
        &&& s.next == 0
        &&& step == s.step_after()
    }

    /// Begin reading back the models a request lists.
    pub fn start(topic: &str, request: &Json) -> (r: (ModelGetSession, Step))
        requires
            token_readable(request@),
        ensures
            Self::opened(topic@, request@, r.0, r.1@),
    {
        let s = ModelGetSession {
            topic: gen_topic(topic),
            token: get_token(request),
            names: listed_names(request),
            items: Vec::new(),
            next: 0,
        };
        let step = s.current();
        (s, step)
    }

    /// Whether the session waits on a name's rows and can take this reply:
    /// a first row has a name and a definition.
    pub fn fits(&self, reply: &DbReply) -> (r: bool)
        ensures
            r == (self.next < self.names.len() && (rows_of(reply@).len() > 0 ==> rows_of(reply@)[0].len() >= 2)),
    {
        if self.next >= self.names.len() {
            return false;
        }
        match reply {
            DbReply::Rows(Some(rows)) => {
                proof {
                    if rows.len() > 0 {
                        assert(rows_of(reply@)[0].len() == rows@[0].len());
                    }
                }
                rows.len() == 0 || rows[0].len() >= 2
            },
            _ => true,
        }
    }

    /// Take the rows for the pending name; the first row's name and
    /// definition make an item. Each first row has at least two cells.
    pub fn resume(&mut self, reply: DbReply) -> (r: Step)
        requires
            old(self).wf(),
            old(self).next < old(self).names.len(),
            rows_of(reply@).len() > 0 ==> rows_of(reply@)[0].len() >= 2,
        ensures
            answers_to(r@, old(self).topic@, old(self).token@),
            final(self).wf(),
            final(self).topic == old(self).topic,
            final(self).token == old(self).token,
            final(self).names == old(self).names,
            final(self).next == old(self).next + 1,
            views(final(self).items@) == views(old(self).items@) + model_item(rows_of(reply@)),
            r@ == final(self).step_after(),
            final(self).pending() < old(self).pending(),
    {
        let ghost before = views(self.items@);
        match &reply {
            DbReply::Rows(Some(rows)) if rows.len() > 0 => {
                proof {
                    assert(views(rows@[0]@) == rows_of(reply@)[0]);
                }
                let name = &rows[0][0];
                let restored = replace_chars(rows[0][1].as_str(), '\'', '"');
                let body = match parse_json(restored.as_str()) {
                    Some(v) => dump(&v),
                    None => owned("[]"),
                };
                let mut es: Vec<JsonEntry> = Vec::new();
                es.push(text_entry("model", name.as_str()));
                es.push(entry("body", body));
                proof {
                    assert(entry_views(es@) =~= seq![
                        ("model"@, json_quoted(rows_of(reply@)[0][0])),
                        ("body"@, definition_json(rows_of(reply@)[0][1])),
                    ]);
                }
                self.items.push(dump_object(&es));
                proof {
                    assert(views(self.items@) =~= before + model_item(rows_of(reply@)));
                }
            },
            _ => {
                proof {
                    assert(before + model_item(rows_of(reply@)) =~= before);
                }
            },
        }
        self.next = self.next + 1;
        self.current()
    }
}

/// Listing the names of all models.
pub struct ModelSchemaSession {
    pub topic: String,
    pub token: String,
    pub finished: bool,
}

impl ModelSchemaSession {
    /// What starting a model listing gives for a request topic and request.
    pub open spec fn opened(topic: Seq<char>, request: JsonView, s: Self, step: StepView) -> bool {
        &&& s.topic@ == response_topic(topic)
        &&& s.token@ == token_of(request)
        &&& answers_to(step, s.topic@, s.token@)
        &&& !s.finished
        &&& step == StepView::Query(DbRequestView::SelectColumnAll { table: "model"@, key: "name"@ })
    }

    /// Begin listing the model names: ask for the `name` column of `model`.
    pub fn start(topic: &str, request: &Json) -> (r: (ModelSchemaSession, Step))
        requires
            token_readable(request@),
        ensures
            Self::opened(topic@, request@, r.0, r.1@),
    {
        let s = ModelSchemaSession { topic: gen_topic(topic), token: get_token(request), finished: false };
        (s, Step::Query(DbRequest::SelectColumnAll { table: owned("model"), key: owned("name") }))
    }

    /// Whether the rows can be taken: each has a cell.
    pub fn fits(&self, reply: &DbReply) -> (r: bool)
        ensures
            r == rows_nonempty(rows_of(reply@)),
    {
        reply_rows_nonempty(reply)
    }

    /// Reply with the first cell of every row (none when the query failed).
    /// Every row has a cell.
    pub fn resume(&mut self, reply: DbReply) -> (r: Step)
        requires
            rows_nonempty(rows_of(reply@)),
        ensures
            answers_to(r@, old(self).topic@, old(self).token@),
            final(self).topic == old(self).topic,
            final(self).token == old(self).token,
            final(self).finished,
            old(self).finished ==> r@ == StepView::Quit,
            !old(self).finished ==> r@ == body_reply(
                old(self).topic@,
                old(self).token@,
                rows_of(reply@).map_values(|row: Seq<Seq<char>>| json_quoted(row[0])),
            ),
    {
        if self.finished {
            return Step::Quit;
        }
        self.finished = true;
        let empty_rows: Vec<Vec<String>> = Vec::new();
        let rows: &Vec<Vec<String>> = match &reply {
            DbReply::Rows(Some(rs)) => rs,
            _ => &empty_rows,
        };
        proof {
            assert(rows_view(empty_rows@) =~= Seq::<Seq<Seq<char>>>::empty());
        }
        let ghost rv = rows_view(rows@);
        let ghost target = rv.map_values(|row: Seq<Seq<char>>| json_quoted(row[0]));
        let mut names: Vec<String> = Vec::new();
        let mut i: usize = 0;
        while i < rows.len()
            invariant
                i <= rows.len(),
                rv == rows_view(rows@),
                rv == rows_of(reply@),
                forall|k: int| 0 <= k < rv.len() ==> #[trigger] rv[k].len() > 0,
                target == rv.map_values(|row: Seq<Seq<char>>| json_quoted(row[0])),
                views(names@) == target.take(i as int),
            decreases rows.len() - i,
        {
            proof {
                assert(views(rows@[i as int]@) == rv[i as int]);
                assert(rv[i as int].len() > 0);
            }
            names.push(crate::json::quote(rows[i][0].as_str()));
            proof {
                assert(views(names@) == views(names@.drop_last()).push(names@.last()@));
                assert(target.take(i + 1) == target.take(i as int).push(target[i as int]));
            }
            i = i + 1;
        }
        proof {
            assert(target.take(rows.len() as int) == target);
        }
        body_response(&self.topic, &self.token, &names)
    }
}

/// The rows deleted for a model deletion: the model row of each listed name.
pub open spec fn model_targets(request: JsonView) -> Seq<Pairs> {
    model_names(request).map_values(|n: Seq<char>| seq![("name"@, n)])
}

/// What starting a model deletion gives for a request topic and request.
pub open spec fn model_delete_opened(topic: Seq<char>, request: JsonView, s: RemovalSession, step: StepView) -> bool {
    &&& s.wf()
    &&& s.topic@ == response_topic(topic)
    &&& s.token@ == token_of(request)
    &&& answers_to(step, s.topic@, s.token@)
    &&& s.table@ == "model"@
    &&& targets_view(s.targets@) == model_targets(request)
    &&& s.next == 0
    &&& !s.finished
    &&& step == s.step_after()
}

/// Begin deleting the models a request lists, from the `model` table.
pub fn model_delete_start(topic: &str, request: &Json) -> (r: (RemovalSession, Step))
    requires
        token_readable(request@),
    ensures
        model_delete_opened(topic@, request@, r.0, r.1@),
{
    let names = listed_names(request);
    let ghost target = model_targets(request@);
    let mut targets: Vec<Vec<KeyValue>> = Vec::new();
    let mut i: usize = 0;
    while i < names.len()
        invariant
            i <= names.len(),
            views(names@) == model_names(request@),
            target == model_targets(request@),
            targets_view(targets@) == target.take(i as int),
        decreases names.len() - i,
    {
        proof {
            assert(views(names@)[i as int] == names@[i as int]@);
        }
        targets.push(name_condition(&names[i]));
        proof {
            assert(targets_view(targets@) == targets_view(targets@.drop_last()).push(kv_views(targets@.last()@)));
            assert(target.take(i + 1) == target.take(i as int).push(target[i as int]));
        }
        i = i + 1;
    }
    proof {
        assert(target.take(names.len() as int) == target);
    }
    RemovalSession::begin(gen_topic(topic), get_token(request), owned("model"), targets)
}

/// Handle a request to store a model definition: read the payload and begin.
/// None when the request's `token` member is neither absent, null nor a
/// string.
pub fn response_model_set(topic: &str, payload: &str) -> (r: Option<(ModelSetSession, Step)>)
    ensures
        match r {
            Some((s, step)) => token_readable(request_value(payload@)) && ModelSetSession::opened(topic@, request_value(payload@), s, step@),
            None => !token_readable(request_value(payload@)),
        },
{
    match read_request(payload) {
        Some(request) => Some(ModelSetSession::start(topic, &request)),
        None => None,
    }
}

/// Handle a request to read model definitions back: read the payload and begin.
/// None when the request's `token` member is neither absent, null nor a
/// string.
pub fn response_model_get(topic: &str, payload: &str) -> (r: Option<(ModelGetSession, Step)>)
    ensures
        match r {
            Some((s, step)) => token_readable(request_value(payload@)) && ModelGetSession::opened(topic@, request_value(payload@), s, step@),
            None => !token_readable(request_value(payload@)),
        },
{
    match read_request(payload) {
        Some(request) => Some(ModelGetSession::start(topic, &request)),
        None => None,
    }
}

/// Handle a request to list the models: read the payload and begin.
/// None when the request's `token` member is neither absent, null nor a
/// string.
pub fn response_model_schema(topic: &str, payload: &str) -> (r: Option<(ModelSchemaSession, Step)>)
    ensures
        match r {
            Some((s, step)) => token_readable(request_value(payload@)) && ModelSchemaSession::opened(topic@, request_value(payload@), s, step@),
            None => !token_readable(request_value(payload@)),
        },
{
    match read_request(payload) {
        Some(request) => Some(ModelSchemaSession::start(topic, &request)),
        None => None,
    }
}

/// Handle a request to delete models: read the payload and begin.
/// None when the request's `token` member is neither absent, null nor a
/// string.
pub fn response_model_delete(topic: &str, payload: &str) -> (r: Option<(RemovalSession, Step)>)
    ensures
        match r {
            Some((s, step)) => token_readable(request_value(payload@)) && model_delete_opened(topic@, request_value(payload@), s, step@),
            None => !token_readable(request_value(payload@)),
        },
{
    match read_request(payload) {
        Some(request) => Some(model_delete_start(topic, &request)),
        None => None,
    }
}


} // verus!
