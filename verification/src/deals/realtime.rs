//! Realtime data: storing a device's latest readings, and reading them back.

use vstd::prelude::*;
use crate::common::{
    read_request, request_value,
    get_array_items, get_text_or_empty, get_token, kv_views, response_topic, token_of,
    token_readable, array_field, text_or_empty, gen_topic, KeyValue,
};
use crate::json::{
    array_text, contains_key, dump, dump_array, dump_object, entry_views, has_key, json_quoted,
    json_text, member, member_display, member_value, object_text, owned, parse_json, Json,
    JsonEntry, JsonView,
};
use crate::protocol::{
    answers_to,
    reply_rows_nonempty, rows_nonempty, body_reply, body_response, entry, flag_of, reply_flag, rows_of, status_reply,
    status_response, text_entry, DbReply, DbReplyView, DbRequest, DbRequestView, Pairs, Rows,
    Step, StepView,
};
use crate::sql::rows_view;
use vstd::string::StringSliceAdditionalSpecFns;
use crate::text::{push_char, push_str, replace_char, replace_chars, split_on, split_str, views};

verus! {

broadcast use vstd::string::group_string_axioms;

/// The lookup pairs for one entry of a realtime query: a `dev` entry names a
/// device as `model_guid` and may list the columns to read; a `modelname`
/// entry names a model. Entries with both or neither key, a device name
/// without `_`, or an empty model name are skipped.
pub open spec fn realtime_kv(t: Seq<char>) -> Option<Pairs> {
    let v = member_value(t);
    let is_dev = has_key(v, "dev"@);
    let is_model = has_key(v, "modelname"@);
    if is_dev == is_model {
        None
    } else if is_dev {
        let ds = split_on(text_or_empty(v, "dev"@), '_');
        if ds.len() < 2 {
            None
        } else {
            Some(
                seq![("type"@, "dev"@), ("model"@, ds[0]), ("guid"@, ds[1])] + array_field(
                    v,
                    "body"@,
                ).map_values(|d: Seq<char>| (member_display(d), member_display(d))),
            )
        }
    } else {
        let m = text_or_empty(v, "modelname"@);
        if m.len() == 0 {
            None
        } else {
            Some(seq![("type"@, "model"@), ("model"@, m)])
        }
    }
}

/// The lookup pairs for every entry of a realtime query, in order.
pub open spec fn realtime_kvs(items: Seq<Seq<char>>) -> Seq<Pairs>
    decreases items.len(),
{
    if items.len() == 0 {
        Seq::empty()
    } else {
        let kvs = realtime_kvs(items.drop_last());
        match realtime_kv(items.last()) {
            Some(kv) => kvs.push(kv),
            None => kvs,
        }
    }
}

/// Lookup pairs as built for a realtime query: a model lookup has two pairs,
/// a device lookup at least three.
pub open spec fn lookup_shaped(kv: Pairs) -> bool {
    &&& kv.len() >= 2
    &&& (kv[0].1 == "model"@ || kv.len() >= 3)
}

/// The query for one lookup: all rows of a model's table; the stored row of
/// a device; or the named columns of a device's row.
pub open spec fn realtime_query(kv: Pairs) -> DbRequestView {
    if kv[0].1 == "model"@ {
        DbRequestView::SelectAll { table: kv[1].1 }
    } else if kv.len() == 3 {
        DbRequestView::SelectData { table: kv[1].1, params: seq![kv[2]] }
    } else {
        DbRequestView::SelectByColumn {
            table: kv[1].1,
            keys: kv.skip(3).map_values(|p: (Seq<char>, Seq<char>)| p.1),
            params: seq![kv[2]],
        }
    }
}

/// A stored cell as JSON: its text with `'` turned back into `"`, parsed and
/// written compactly; an empty object when it does not parse.
pub open spec fn cell_json(c: Seq<char>) -> Seq<char> {
    match crate::json::json_parse(replace_char(c, '\'', '"')) {
        Some(v) => json_text(v),
        None => "{}"@,
    }
}

/// One device row of a model: `{"dev": "model_guid", "body": [cells after the first]}`.
pub open spec fn model_row_item(m: Seq<char>, row: Seq<Seq<char>>) -> Seq<char> {
    object_text(
        seq![
            ("dev"@, json_quoted(m.push('_') + row[0])),
            ("body"@, array_text(row.skip(1).map_values(|c: Seq<char>| cell_json(c)))),
        ],
    )
}

/// The reply item for one lookup given the rows its query returned.
pub open spec fn realtime_item(kv: Pairs, rows: Rows) -> Seq<char> {
    if kv[0].1 == "model"@ {
        let m = kv[1].1;
        object_text(
            seq![
                ("modelname"@, json_quoted(m)),
                ("body"@, array_text(rows.map_values(|row: Seq<Seq<char>>| model_row_item(m, row)))),
            ],
        )
    } else {
        let cells = if rows.len() == 0 {
            Seq::empty()
        } else if kv.len() == 3 {
            if rows[0].len() == 0 {
                Seq::empty()
            } else {
                rows[0].skip(1).map_values(|c: Seq<char>| cell_json(c))
            }
        } else {
            rows[0].map_values(|c: Seq<char>| cell_json(c))
        };
        object_text(
            seq![
                ("dev"@, json_quoted(kv[1].1.push('_') + kv[2].1)),
                ("body"@, array_text(cells)),
            ],
        )
    }
}

/// A device lookup reads only its own row: it selects on its `guid` pair
/// alone, with exactly three pairs the whole stored row, and with more the
/// columns named by the further pairs, in order.
pub proof fn lemma_device_query(kv: Pairs)
    requires
        kv.len() >= 3,
        kv[0].1 != "model"@,
    ensures
        kv.len() == 3 ==> realtime_query(kv) == (DbRequestView::SelectData { table: kv[1].1, params: seq![kv[2]] }),
        kv.len() > 3 ==> ({
            &&& realtime_query(kv) is SelectByColumn
            &&& realtime_query(kv)->SelectByColumn_table == kv[1].1
            &&& realtime_query(kv)->SelectByColumn_params == seq![kv[2]]
            &&& realtime_query(kv)->SelectByColumn_keys.len() == kv.len() - 3
            &&& forall|j: int|
                0 <= j < kv.len() - 3 ==> #[trigger] realtime_query(kv)->SelectByColumn_keys[j] == kv[j + 3].1
        }),
{
}

/// A device lookup's reply item names the device `model_guid` and holds
/// the first returned row's cells as JSON: all of them when columns were
/// named, all but the first (the stored id) otherwise; nothing when no row
/// came back.
pub proof fn lemma_device_item(kv: Pairs, rows: Rows)
    requires
        kv.len() >= 3,
        kv[0].1 != "model"@,
    ensures
        (exists|cells: Seq<Seq<char>>|
            {
                &&& rows.len() == 0 ==> cells.len() == 0
                &&& rows.len() > 0 && kv.len() == 3 ==> cells.len() == (if rows[0].len() == 0 {
                    0
                } else {
                    rows[0].len() - 1
                }) && forall|j: int| 0 <= j < cells.len() ==> #[trigger] cells[j] == cell_json(rows[0][j + 1])
                &&& rows.len() > 0 && kv.len() > 3 ==> cells.len() == rows[0].len() && forall|j: int|
                    0 <= j < cells.len() ==> #[trigger] cells[j] == cell_json(rows[0][j])
                &&& realtime_item(kv, rows) == object_text(
                    seq![("dev"@, json_quoted(kv[1].1.push('_') + kv[2].1)), ("body"@, array_text(cells))],
                )
            }),
{
    let cells = if rows.len() == 0 {
        Seq::empty()
    } else if kv.len() == 3 {
        if rows[0].len() == 0 {
            Seq::empty()
        } else {
            rows[0].skip(1).map_values(|c: Seq<char>| cell_json(c))
        }
    } else {
        rows[0].map_values(|c: Seq<char>| cell_json(c))
    };
    assert(realtime_item(kv, rows) == object_text(
        seq![("dev"@, json_quoted(kv[1].1.push('_') + kv[2].1)), ("body"@, array_text(cells))],
    ));
}

/// A model lookup's reply item has one entry per row the model's table
/// returned, in row order: entry `i` names the device `model_<first cell of
/// row i>` and holds the rest of row `i`'s cells as JSON.
pub proof fn lemma_model_item_rows(kv: Pairs, rows: Rows)
    requires
        kv.len() >= 2,
        kv[0].1 == "model"@,
    ensures
        (exists|entries: Seq<Seq<char>>|
            {
                &&& entries.len() == rows.len()
                &&& forall|i: int|
                    0 <= i < rows.len() ==> #[trigger] entries[i] == object_text(
                        seq![
                            ("dev"@, json_quoted(kv[1].1.push('_') + rows[i][0])),
                            ("body"@, array_text(rows[i].skip(1).map_values(|c: Seq<char>| cell_json(c)))),
                        ],
                    )
                &&& realtime_item(kv, rows) == object_text(
                    seq![("modelname"@, json_quoted(kv[1].1)), ("body"@, array_text(entries))],
                )
            }),
{
    let m = kv[1].1;
    let entries = rows.map_values(|row: Seq<Seq<char>>| model_row_item(m, row));
    assert(entries.len() == rows.len());
    assert(realtime_item(kv, rows) == object_text(
        seq![("modelname"@, json_quoted(kv[1].1)), ("body"@, array_text(entries))],
    ));
}

/// The views of a list of lookups.
pub open spec fn lookups_view(v: Seq<Vec<KeyValue>>) -> Seq<Pairs> {
    v.map_values(|k: Vec<KeyValue>| kv_views(k@))
}

/// A realtime read in progress: one query per lookup, one reply item per query.
pub struct RealtimeGetSession {
    pub topic: String,
    pub token: String,
    pub lookups: Vec<Vec<KeyValue>>,
    pub items: Vec<String>,
    pub next: usize,
}

impl RealtimeGetSession {
    /// A bound on the database operations the session may still ask for.
    pub open spec fn pending(&self) -> nat {
        (self.lookups.len() - self.next) as nat
    }

    /// The lookups are as built, and one item has been made per answered query.
    pub open spec fn wf(&self) -> bool {
        &&& self.next <= self.lookups.len()
        &&& self.items.len() == self.next
        &&& forall|i: int| 0 <= i < self.lookups.len() ==> lookup_shaped(#[trigger] lookups_view(self.lookups@)[i])
    }

    /// The step asking for the next lookup's rows, or the reply once all are in.
    pub open spec fn step_after(&self) -> StepView {
        if self.next < self.lookups.len() {
            StepView::Query(realtime_query(lookups_view(self.lookups@)[self.next as int]))
        } else {
            body_reply(self.topic@, self.token@, views(self.items@))
        }
    }
}

proof fn lemma_realtime_kvs_shaped(items: Seq<Seq<char>>)
    ensures
        forall|i: int| 0 <= i < realtime_kvs(items).len() ==> lookup_shaped(#[trigger] realtime_kvs(items)[i]),
    decreases items.len(),
{
    if items.len() > 0 {
        let prev = items.drop_last();
        lemma_realtime_kvs_shaped(prev);
        match realtime_kv(items.last()) {
            Some(kv) => {
                assert(lookup_shaped(kv));
                assert(realtime_kvs(items) == realtime_kvs(prev).push(kv));
                assert forall|i: int| 0 <= i < realtime_kvs(items).len() implies lookup_shaped(
                    #[trigger] realtime_kvs(items)[i],
                ) by {
                    if i < realtime_kvs(prev).len() {
                        assert(realtime_kvs(items)[i] == realtime_kvs(prev)[i]);
                    }
                }
            },
            None => {},
        }
    }
}

/// The lookup pairs for one entry of a realtime query.
fn realtime_lookup(t: &String) -> (r: Option<Vec<KeyValue>>)
    ensures
        match r {
            Some(kv) => realtime_kv(t@) == Some(kv_views(kv@)),
            None => realtime_kv(t@) is None,
        },
{
    let v = member(t.as_str());
    let is_dev = contains_key(&v, "dev");
    let is_model = contains_key(&v, "modelname");
    if is_dev == is_model {
        return None;
    }
    if is_dev {
        let dev = get_text_or_empty("dev", &v);
        let ds = split_str(dev.as_str(), '_');
        if ds.len() < 2 {
            return None;
        }
        let body = get_array_items("body", &v);
        let mut kv: Vec<KeyValue> = Vec::new();
        kv.push(KeyValue::of("type", "dev"));
        kv.push(KeyValue { key: owned("model"), value: ds[0].clone() });
        kv.push(KeyValue { key: owned("guid"), value: ds[1].clone() });
        let ghost head = kv_views(kv@);
        let ghost tail = views(body@).map_values(|d: Seq<char>| (member_display(d), member_display(d)));
        proof {
            assert(head =~= seq![("type"@, "dev"@), ("model"@, views(ds@)[0]), ("guid"@, views(ds@)[1])]);
        }
        let mut j: usize = 0;
        while j < body.len()
            invariant
                j <= body.len(),
                tail == views(body@).map_values(|d: Seq<char>| (member_display(d), member_display(d))),
                kv_views(kv@) == head + tail.take(j as int),
            decreases body.len() - j,
        {
            let shown = match member(body[j].as_str()) {
                Json::Text(s) => s,
                _ => body[j].clone(),
            };
            proof {
                assert(views(body@)[j as int] == body@[j as int]@);
                assert(shown@ == member_display(body@[j as int]@));
            }
            kv.push(KeyValue { key: shown.clone(), value: shown });
            proof {
                assert(kv_views(kv@) == kv_views(kv@.drop_last()).push(kv@.last()@));
                assert(tail.take(j + 1) == tail.take(j as int).push(tail[j as int]));
                assert(head + tail.take(j + 1) =~= (head + tail.take(j as int)).push(tail[j as int]));
            }
            j = j + 1;
        }
        proof {
            assert(tail.take(body.len() as int) == tail);
        }
        Some(kv)
    } else {
        let m = get_text_or_empty("modelname", &v);
        if m.as_str().is_empty() {
            return None;
        }
        let mut kv: Vec<KeyValue> = Vec::new();
        kv.push(KeyValue::of("type", "model"));
        kv.push(KeyValue { key: owned("model"), value: m });
        proof {
            assert(kv_views(kv@) =~= seq![("type"@, "model"@), ("model"@, m@)]);
        }
        Some(kv)
    }
}

/// The query for one lookup.
fn lookup_query(kv: &Vec<KeyValue>) -> (r: DbRequest)
    requires
        lookup_shaped(kv_views(kv@)),
    ensures
        r@ == realtime_query(kv_views(kv@)),
{
    let ghost kvv = kv_views(kv@);
    let table = kv[1].value.clone();
    if kv[0].value == owned("model") {
        return DbRequest::SelectAll { table };
    }
    let mut params: Vec<KeyValue> = Vec::new();
    params.push(kv[2].duplicate());
    proof {
        assert(kv_views(params@) =~= seq![kvv[2]]);
    }
    if kv.len() == 3 {
        DbRequest::SelectData { table, params }
    } else {
        let ghost target = kvv.skip(3).map_values(|p: (Seq<char>, Seq<char>)| p.1);
        let mut keys: Vec<String> = Vec::new();
        let mut k: usize = 3;
        while k < kv.len()
            invariant
                3 <= k <= kv.len(),
                kvv == kv_views(kv@),
                target == kvv.skip(3).map_values(|p: (Seq<char>, Seq<char>)| p.1),
                views(keys@) == target.take(k - 3),
            decreases kv.len() - k,
        {
            keys.push(kv[k].value.clone());
            proof {
                assert(views(keys@) == views(keys@.drop_last()).push(keys@.last()@));
                assert(target.take(k + 1 - 3) == target.take(k - 3).push(target[k - 3]));
            }
            k = k + 1;
        }
        proof {
            assert(target.take(kv.len() - 3) == target);
        }
        DbRequest::SelectByColumn { table, keys, params }
    }
}

/// A stored cell as JSON text.
fn cell_value(c: &String) -> (r: String)
    ensures
        r@ == cell_json(c@),
{
    let restored = replace_chars(c.as_str(), '\'', '"');
    match parse_json(restored.as_str()) {
        Some(v) => dump(&v),
        None => owned("{}"),
    }
}

/// The cells of a row from position `from` on, as JSON texts.
fn cells_from(row: &Vec<String>, from: usize) -> (r: Vec<String>)
    requires
        from <= row.len(),
    ensures
        views(r@) == views(row@).skip(from as int).map_values(|c: Seq<char>| cell_json(c)),
{
    let ghost target = views(row@).skip(from as int).map_values(|c: Seq<char>| cell_json(c));
    let mut out: Vec<String> = Vec::new();
    let mut s: usize = from;
    while s < row.len()
        invariant
            from <= s <= row.len(),
            target == views(row@).skip(from as int).map_values(|c: Seq<char>| cell_json(c)),
            views(out@) == target.take(s - from),
        decreases row.len() - s,
    {
        out.push(cell_value(&row[s]));
        proof {
            assert(views(out@) == views(out@.drop_last()).push(out@.last()@));
            assert(target.take(s + 1 - from) == target.take(s - from).push(target[s - from]));
        }
        s = s + 1;
    }
    proof {
        assert(target.take(row.len() - from) == target);
    }
    out
}

/// `{"key": value_text, "body": array}` as compact text.
fn pair_object(k1: &str, v1: &String, items: &Vec<String>) -> (r: String)
    ensures
        r@ == object_text(seq![(k1@, json_quoted(v1@)), ("body"@, array_text(views(items@)))]),
{
    let mut es: Vec<JsonEntry> = Vec::new();
    es.push(text_entry(k1, v1.as_str()));
    es.push(entry("body", dump_array(items)));
    proof {
        assert(entry_views(es@) =~= seq![(k1@, json_quoted(v1@)), ("body"@, array_text(views(items@)))]);
    }
    dump_object(&es)
}

/// The reply item for one lookup.
fn lookup_item(kv: &Vec<KeyValue>, reply: &DbReply) -> (r: String)
    requires
        lookup_shaped(kv_views(kv@)),
        kv_views(kv@)[0].1 == "model"@ ==> rows_nonempty(rows_of(reply@)),
    ensures
        r@ == realtime_item(kv_views(kv@), rows_of(reply@)),
{
    let ghost kvv = kv_views(kv@);
    let ghost rows = rows_of(reply@);
    let empty_rows: Vec<Vec<String>> = Vec::new();
    let rs: &Vec<Vec<String>> = match reply {
        DbReply::Rows(Some(rs)) => rs,
        _ => &empty_rows,
    };
    proof {
        assert(rows_view(empty_rows@) =~= Seq::<Seq<Seq<char>>>::empty());
        assert(rows_view(rs@) == rows);
    }
    if kv[0].value == owned("model") {
        let m = &kv[1].value;
        let ghost target = rows.map_values(|row: Seq<Seq<char>>| model_row_item(m@, row));
        let mut sons: Vec<String> = Vec::new();
        let mut i: usize = 0;
        while i < rs.len()
            invariant
                i <= rs.len(),
                rows == rows_view(rs@),
                rows_nonempty(rows),
                target == rows.map_values(|row: Seq<Seq<char>>| model_row_item(m@, row)),
                views(sons@) == target.take(i as int),
            decreases rs.len() - i,
        {
            let row = &rs[i];
            proof {
                assert(views(row@) == rows[i as int]);
                assert(rows[i as int].len() > 0);
            }
            let mut dev = m.clone();
            push_char(&mut dev, '_');
            push_str(&mut dev, row[0].as_str());
            let cells = cells_from(row, 1);
            sons.push(pair_object("dev", &dev, &cells));
            proof {
                assert(views(sons@) == views(sons@.drop_last()).push(sons@.last()@));
                assert(target.take(i + 1) == target.take(i as int).push(target[i as int]));
            }
            i = i + 1;
        }
        proof {
            assert(target.take(rs.len() as int) == target);
        }
        pair_object("modelname", m, &sons)
    } else {
        let mut dev = kv[1].value.clone();
        push_char(&mut dev, '_');
        push_str(&mut dev, kv[2].value.as_str());
        let cells = if rs.len() == 0 {
            let none: Vec<String> = Vec::new();
            proof {
                assert(views(none@) =~= Seq::<Seq<char>>::empty());
            }
            none
        } else if kv.len() == 3 {
            if rs[0].len() == 0 {
                let none: Vec<String> = Vec::new();
                proof {
                    assert(views(none@) =~= Seq::<Seq<char>>::empty());
                }
                none
            } else {
                cells_from(&rs[0], 1)
            }
        } else {
            proof {
                assert(views(rs@[0]@).skip(0) == views(rs@[0]@));
            }
            cells_from(&rs[0], 0)
        };
        pair_object("dev", &dev, &cells)
    }
}

impl RealtimeGetSession {
    /// What starting a realtime read gives for a request topic and request.
    pub open spec fn opened(topic: Seq<char>, request: JsonView, s: Self, step: StepView) -> bool {
        &&& s.wf()
        &&& s.topic@ == response_topic(topic)
        &&& s.token@ == token_of(request)
        &&& answers_to(step, s.topic@, s.token@)
        &&& lookups_view(s.lookups@) == realtime_kvs(array_field(request, "body"@))
        &&& s.next == 0
        &&& step == s.step_after()
    }

    /// Begin a realtime read: one lookup per usable entry of the request's
    /// `body` array.
    pub fn start(topic: &str, request: &Json) -> (r: (RealtimeGetSession, Step))
        requires
            token_readable(request@),
        ensures
            Self::opened(topic@, request@, r.0, r.1@),
    {
        let reply_topic = gen_topic(topic);
        let token = get_token(request);
        let types = get_array_items("body", request);
        let ghost tv = views(types@);
        let mut lookups: Vec<Vec<KeyValue>> = Vec::new();
        let mut i: usize = 0;
        while i < types.len()
            invariant
                i <= types.len(),
                tv == views(types@),
                lookups_view(lookups@) == realtime_kvs(tv.take(i as int)),
            decreases types.len() - i,
        {
            proof {
                assert(tv.take(i + 1).drop_last() == tv.take(i as int));
            }
            match realtime_lookup(&types[i]) {
                Some(kv) => {
                    lookups.push(kv);
                    proof {
                        assert(lookups_view(lookups@) == lookups_view(lookups@.drop_last()).push(kv_views(lookups@.last()@)));
                    }
                },
                None => {},
            }
            i = i + 1;
        }
        proof {
            assert(tv.take(types.len() as int) == tv);
            lemma_realtime_kvs_shaped(tv);
        }
        let session = RealtimeGetSession { topic: reply_topic, token, lookups, items: Vec::new(), next: 0 };
        let step = session.current();
        (session, step)
    }

    /// The step the session is waiting on.
    fn current(&self) -> (r: Step)
        requires
            self.wf(),
        ensures
            r@ == self.step_after(),
    {
        if self.next < self.lookups.len() {
            Step::Query(lookup_query(&self.lookups[self.next]))
        } else {
            body_response(&self.topic, &self.token, &self.items)
        }
    }

    /// Whether the session waits on a lookup's rows and can take this reply:
    /// a model lookup's rows each have a cell.
    pub fn fits(&self, reply: &DbReply) -> (r: bool)
        requires
            self.wf(),
        ensures
            r == (self.next < self.lookups.len() && (lookups_view(self.lookups@)[self.next as int][0].1
                == "model"@ ==> rows_nonempty(rows_of(reply@)))),
    {
        if self.next >= self.lookups.len() {
            return false;
        }
        proof {
            assert(lookups_view(self.lookups@)[self.next as int] == kv_views(self.lookups@[self.next as int]@));
            assert(lookup_shaped(lookups_view(self.lookups@)[self.next as int]));
            assert(kv_views(self.lookups@[self.next as int]@)[0] == self.lookups@[self.next as int]@[0]@);
            reveal_strlit("model");
        }
        if self.lookups[self.next][0].value == owned("model") {
            reply_rows_nonempty(reply)
        } else {
            true
        }
    }

    /// Take the rows of the pending lookup and go on to the next one, or reply
    /// with every item once the last lookup is answered. A model lookup's
    /// rows each have a cell.
    pub fn resume(&mut self, reply: DbReply) -> (r: Step)
        requires
            old(self).wf(),
            old(self).next < old(self).lookups.len(),
            lookups_view(old(self).lookups@)[old(self).next as int][0].1 == "model"@
                ==> rows_nonempty(rows_of(reply@)),
        ensures
            answers_to(r@, old(self).topic@, old(self).token@),
            final(self).wf(),
            final(self).topic == old(self).topic,
            final(self).token == old(self).token,
            final(self).lookups == old(self).lookups,
            final(self).next == old(self).next + 1,
            views(final(self).items@) == views(old(self).items@).push(
                realtime_item(lookups_view(old(self).lookups@)[old(self).next as int], rows_of(reply@)),
            ),
            r@ == final(self).step_after(),
            final(self).pending() < old(self).pending(),
    {
        proof {
            assert(lookups_view(self.lookups@)[self.next as int] == kv_views(self.lookups@[self.next as int]@));
        }
        let item = lookup_item(&self.lookups[self.next], &reply);
        let ghost before = self.items@;
        self.items.push(item);
        proof {
            assert(views(self.items@) == views(before).push(item@));
        }
        self.next = self.next + 1;
        self.current()
    }
}

/// The model name and the `model_guid` segment of a realtime report topic
/// (its last two segments).
pub open spec fn report_names(topic: Seq<char>) -> (Seq<char>, Seq<char>) {
    let segs = split_on(topic, '/');
    (segs[segs.len() - 2], segs[segs.len() - 1])
}

/// The device id of a report: the `model_guid` segment with every occurrence
/// of the model name, then every `_`, removed.
pub open spec fn report_guid(topic: Seq<char>) -> Seq<char> {
    let (model_name, model_guid) = report_names(topic);
    crate::text::remove_all(crate::text::remove_all(model_guid, model_name), seq!['_'])
}

/// The `name` of a reading.
pub open spec fn reading_name(r: Seq<char>) -> Seq<char> {
    text_or_empty(member_value(r), "name"@)
}

/// The column values of a report: each reading under its name, stored as its
/// compact text with `"` turned into `'`, then the device id under `guid`.
pub open spec fn report_record(topic: Seq<char>, request: JsonView) -> Pairs {
    array_field(request, "body"@).map_values(
        |r: Seq<char>| (reading_name(r), replace_char(r, '"', '\'')),
    ).push(("guid"@, report_guid(topic)))
}

/// The length in bytes of a text's UTF-8 encoding, as `str::len` gives it.
pub open spec fn byte_len(s: Seq<char>) -> usize {
    vstd::utf8::encode_utf8(s).len() as usize
}

/// A report is stored only when `data_row` is `single`, there is at least one
/// reading, each reading is named, the model name is not empty and the
/// `model_guid` segment is at least five bytes long.
pub open spec fn report_acceptable(topic: Seq<char>, request: JsonView) -> bool {
    let (model_name, model_guid) = report_names(topic);
    let datas = array_field(request, "body"@);
    &&& text_or_empty(request, "data_row"@) == "single"@
    &&& datas.len() > 0
    &&& model_name.len() > 0
    &&& byte_len(model_guid) >= 5
    &&& forall|i: int| 0 <= i < datas.len() ==> reading_name(#[trigger] datas[i]).len() > 0
}

/// Where a realtime report stands.
#[derive(Clone, Copy, Debug, PartialEq, Eq, Structural)]
pub enum ReportPhase {
    /// Waiting for whether the model's table exists.
    CheckTable,
    /// Waiting for whether the model is defined.
    CheckModel,
    /// Waiting for whether the device is registered.
    CheckDevice,
    /// Waiting for whether the device already has a row.
    CheckRecord,
    /// Waiting for the row to be written.
    Write,
    Finished,
}

/// A realtime report in progress.
pub struct RealtimeSetSession {
    pub topic: String,
    pub token: String,
    pub model_name: String,
    pub guid: String,
    pub record: Vec<KeyValue>,
    pub phase: ReportPhase,
}

impl RealtimeSetSession {
    /// A bound on the database operations the session may still ask for.
    pub open spec fn pending(&self) -> nat {
        match self.phase {
            ReportPhase::CheckTable => 5,
            ReportPhase::CheckModel => 4,
            ReportPhase::CheckDevice => 3,
            ReportPhase::CheckRecord => 2,
            ReportPhase::Write => 1,
            ReportPhase::Finished => 0,
        }
    }

    /// The phase and step that follow a reply.
    pub open spec fn after(&self, reply: DbReplyView) -> (ReportPhase, StepView) {
        let fail = (ReportPhase::Finished, status_reply(self.topic@, self.token@, false));
        let cond = seq![("guid"@, self.guid@)];
        match self.phase {
            ReportPhase::CheckTable => if flag_of(reply) == Some(true) {
                (
                    ReportPhase::CheckModel,
                    StepView::Query(
                        DbRequestView::ExistsData {
                            table: "model"@,
                            params: seq![("name"@, self.model_name@)],
                        },
                    ),
                )
            } else {
                fail
            },
            ReportPhase::CheckModel => if flag_of(reply) == Some(true) {
                (
                    ReportPhase::CheckDevice,
                    StepView::Query(DbRequestView::ExistsData { table: "device"@, params: cond }),
                )
            } else {
                fail
            },
            ReportPhase::CheckDevice => if flag_of(reply) == Some(true) {
                (
                    ReportPhase::CheckRecord,
                    StepView::Query(DbRequestView::ExistsData { table: self.model_name@, params: cond }),
                )
            } else {
                fail
            },
            ReportPhase::CheckRecord => match flag_of(reply) {
                Some(true) => (
                    ReportPhase::Write,
                    StepView::Query(
                        DbRequestView::UpdateData {
                            table: self.model_name@,
                            conditions: cond,
                            params: kv_views(self.record@),
                        },
                    ),
                ),
                Some(false) => (
                    ReportPhase::Write,
                    StepView::Query(
                        DbRequestView::InsertOneData { table: self.model_name@, params: kv_views(self.record@) },
                    ),
                ),
                None => fail,
            },
            ReportPhase::Write => (ReportPhase::Finished, status_reply(self.topic@, self.token@, true)),
            ReportPhase::Finished => (ReportPhase::Finished, StepView::Quit),
        }
    }
}

/// A report is stored only for a device confirmed at every check. A check
/// of the model's table, the model or the device that is not answered "yes"
/// ends the report with `FAILURE` and asks for nothing more; each check is
/// reached only from the one before it on a "yes"; and a row is updated or
/// inserted only right after the row check.
pub proof fn lemma_report_checks(s: RealtimeSetSession, reply: DbReplyView)
    ensures
        (s.phase == ReportPhase::CheckTable || s.phase == ReportPhase::CheckModel || s.phase
            == ReportPhase::CheckDevice) && flag_of(reply) != Some(true) ==> s.after(reply) == (
            ReportPhase::Finished,
            status_reply(s.topic@, s.token@, false),
        ),
        s.after(reply).0 == ReportPhase::CheckModel ==> s.phase == ReportPhase::CheckTable && flag_of(reply)
            == Some(true),
        s.after(reply).0 == ReportPhase::CheckDevice ==> s.phase == ReportPhase::CheckModel && flag_of(reply)
            == Some(true),
        s.after(reply).0 == ReportPhase::CheckRecord ==> s.phase == ReportPhase::CheckDevice && flag_of(reply)
            == Some(true),
        s.after(reply).0 == ReportPhase::Write ==> s.phase == ReportPhase::CheckRecord,
        s.after(reply).1 matches StepView::Query(q) && (q is UpdateData || q is InsertOneData) ==> s.phase
            == ReportPhase::CheckRecord && flag_of(reply) is Some,
{
}

/// The readings of a report as column values.
fn readings(datas: &Vec<String>) -> (r: Option<Vec<KeyValue>>)
    ensures
        match r {
            Some(kv) => kv_views(kv@) == views(datas@).map_values(
                |r: Seq<char>| (reading_name(r), replace_char(r, '"', '\'')),
            ) && forall|i: int| 0 <= i < datas.len() ==> reading_name(#[trigger] views(datas@)[i]).len() > 0,
            None => exists|i: int| 0 <= i < datas.len() && reading_name(#[trigger] views(datas@)[i]).len() == 0,
        },
{
    let ghost target = views(datas@).map_values(|r: Seq<char>| (reading_name(r), replace_char(r, '"', '\'')));
    let mut kv: Vec<KeyValue> = Vec::new();
    let mut i: usize = 0;
    while i < datas.len()
        invariant
            i <= datas.len(),
            target == views(datas@).map_values(|r: Seq<char>| (reading_name(r), replace_char(r, '"', '\''))),
            kv_views(kv@) == target.take(i as int),
            forall|j: int| 0 <= j < i ==> reading_name(#[trigger] views(datas@)[j]).len() > 0,
        decreases datas.len() - i,
    {
        let row = member(datas[i].as_str());
        let name = get_text_or_empty("name", &row);
        proof {
            assert(views(datas@)[i as int] == datas@[i as int]@);
        }
        if name.as_str().is_empty() {
            return None;
        }
        kv.push(KeyValue { key: name, value: replace_chars(datas[i].as_str(), '"', '\'') });
        proof {
            assert(kv_views(kv@) == kv_views(kv@.drop_last()).push(kv@.last()@));
            assert(target.take(i + 1) == target.take(i as int).push(target[i as int]));
        }
        i = i + 1;
    }
    proof {
        assert(target.take(datas.len() as int) == target);
    }
    Some(kv)
}

impl RealtimeSetSession {
    /// What starting to store a report gives for a request topic and request.
    pub open spec fn opened(topic: Seq<char>, request: JsonView, s: Self, step: StepView) -> bool {
        &&& s.topic@ == response_topic(topic)
        &&& s.token@ == token_of(request)
        &&& answers_to(step, s.topic@, s.token@)
        &&& report_acceptable(topic, request) ==> {
            &&& s.phase == ReportPhase::CheckTable
            &&& s.model_name@ == report_names(topic).0
            &&& s.guid@ == report_guid(topic)
            &&& kv_views(s.record@) == report_record(topic, request)
            &&& step == StepView::Query(DbRequestView::CheckTable { table: s.model_name@ })
        }
        &&& !report_acceptable(topic, request) ==> {
            &&& s.phase == ReportPhase::Finished
            &&& step == status_reply(s.topic@, s.token@, false)
        }
    }

    /// Begin storing a realtime report from a `.../model/model_guid` topic.
    pub fn start(topic: &str, request: &Json) -> (r: (RealtimeSetSession, Step))
        requires
            token_readable(request@),
            split_on(topic@, '/').len() >= 2,
        ensures
            Self::opened(topic@, request@, r.0, r.1@),
    {
        proof {
            reveal_strlit("_");
            assert("_"@ =~= seq!['_']);
        }
        let reply_topic = gen_topic(topic);
        let token = get_token(request);
        let data_row = get_text_or_empty("data_row", request);
        let datas = get_array_items("body", request);
        let segs = split_str(topic, '/');
        let n = segs.len();
        let model_name = segs[n - 2].clone();
        let model_guid = segs[n - 1].clone();
        proof {
            assert(views(segs@)[n - 2] == segs@[n - 2]@);
            assert(views(segs@)[n - 1] == segs@[n - 1]@);
            assert(model_name@ == report_names(topic@).0);
            assert(model_guid@ == report_names(topic@).1);
        }
        let guid = crate::text::remove_str(
            crate::text::remove_str(model_guid.as_str(), model_name.as_str()).as_str(),
            "_",
        );
        let g: &str = model_guid.as_str();
        let guid_bytes = g.len();
        proof {
            assert(g.spec_bytes() == vstd::utf8::encode_utf8(g@));
        }
        let ok_head = data_row == owned("single") && datas.len() > 0 && !model_name.as_str().is_empty()
            && guid_bytes >= 5;
        let failed = RealtimeSetSession {
            topic: reply_topic.clone(),
            token: token.clone(),
            model_name: model_name.clone(),
            guid: guid.clone(),
            record: Vec::new(),
            phase: ReportPhase::Finished,
        };
        if !ok_head {
            let step = status_response(&reply_topic, &token, false);
            return (failed, step);
        }
        match readings(&datas) {
            None => {
                let step = status_response(&reply_topic, &token, false);
                (failed, step)
            },
            Some(kv) => {
                let mut record = kv;
                let ghost before = record@;
                record.push(KeyValue { key: owned("guid"), value: guid.clone() });
                proof {
                    assert(kv_views(record@) == kv_views(before).push(("guid"@, guid@)));
                }
                let step = Step::Query(DbRequest::CheckTable { table: model_name.clone() });
                let session = RealtimeSetSession {
                    topic: reply_topic,
                    token,
                    model_name,
                    guid,
                    record,
                    phase: ReportPhase::CheckTable,
                };
                (session, step)
            },
        }
    }

    /// The condition naming the device.
    fn device_condition(&self) -> (r: Vec<KeyValue>)
        ensures
            kv_views(r@) == seq![("guid"@, self.guid@)],
    {
        let mut c: Vec<KeyValue> = Vec::new();
        c.push(KeyValue { key: owned("guid"), value: self.guid.clone() });
        proof {
            assert(kv_views(c@) =~= seq![("guid"@, self.guid@)]);
        }
        c
    }

    /// Take the outcome of the pending operation: each check must hold for the
    /// report to be stored; the device's row is then updated or inserted.
    pub fn resume(&mut self, reply: DbReply) -> (r: Step)
        ensures
            answers_to(r@, old(self).topic@, old(self).token@),
            final(self).topic == old(self).topic,
            final(self).token == old(self).token,
            final(self).model_name == old(self).model_name,
            final(self).guid == old(self).guid,
            final(self).record == old(self).record,
            (final(self).phase, r@) == old(self).after(reply@),
            r@ is Query ==> final(self).pending() < old(self).pending(),
    {
        let flag = reply_flag(&reply);
        match self.phase {
            ReportPhase::CheckTable => {
                if flag == Some(true) {
                    let mut params: Vec<KeyValue> = Vec::new();
                    params.push(KeyValue { key: owned("name"), value: self.model_name.clone() });
                    proof {
                        assert(kv_views(params@) =~= seq![("name"@, self.model_name@)]);
                    }
                    self.phase = ReportPhase::CheckModel;
                    Step::Query(DbRequest::ExistsData { table: owned("model"), params })
                } else {
                    self.phase = ReportPhase::Finished;
                    status_response(&self.topic, &self.token, false)
                }
            },
            ReportPhase::CheckModel => {
                if flag == Some(true) {
                    let params = self.device_condition();
                    self.phase = ReportPhase::CheckDevice;
                    Step::Query(DbRequest::ExistsData { table: owned("device"), params })
                } else {
                    self.phase = ReportPhase::Finished;
                    status_response(&self.topic, &self.token, false)
                }
            },
            ReportPhase::CheckDevice => {
                if flag == Some(true) {
                    let params = self.device_condition();
                    self.phase = ReportPhase::CheckRecord;
                    Step::Query(DbRequest::ExistsData { table: self.model_name.clone(), params })
                } else {
                    self.phase = ReportPhase::Finished;
                    status_response(&self.topic, &self.token, false)
                }
            },
            ReportPhase::CheckRecord => {
                match flag {
                    Some(true) => {
                        let conditions = self.device_condition();
                        let params = crate::common::clone_kvs(&self.record);
                        self.phase = ReportPhase::Write;
                        Step::Query(
                            DbRequest::UpdateData { table: self.model_name.clone(), conditions, params },
                        )
                    },
                    Some(false) => {
                        let params = crate::common::clone_kvs(&self.record);
                        self.phase = ReportPhase::Write;
                        Step::Query(DbRequest::InsertOneData { table: self.model_name.clone(), params })
                    },
                    None => {
                        self.phase = ReportPhase::Finished;
                        status_response(&self.topic, &self.token, false)
                    },
                }
            },
            ReportPhase::Write => {
                self.phase = ReportPhase::Finished;
                status_response(&self.topic, &self.token, true)
            },
            ReportPhase::Finished => Step::Quit,
        }
    }
}

/// Handle a realtime report on `.../model/model_guid`: read the payload and begin.
/// None when the request's `token` member is neither absent, null nor a
/// string.
pub fn response_realtime_set(topic: &str, payload: &str) -> (r: Option<(RealtimeSetSession, Step)>)
    requires
        split_on(topic@, '/').len() >= 2,
    ensures
        match r {
            Some((s, step)) => token_readable(request_value(payload@)) && RealtimeSetSession::opened(topic@, request_value(payload@), s, step@),
            None => !token_readable(request_value(payload@)),
        },
{
    match read_request(payload) {
        Some(request) => Some(RealtimeSetSession::start(topic, &request)),
        None => None,
    }
}

/// Handle a realtime read: read the payload and begin.
/// None when the request's `token` member is neither absent, null nor a
/// string.
pub fn response_realtime_get(topic: &str, payload: &str) -> (r: Option<(RealtimeGetSession, Step)>)
    ensures
        match r {
            Some((s, step)) => token_readable(request_value(payload@)) && RealtimeGetSession::opened(topic@, request_value(payload@), s, step@),
            None => !token_readable(request_value(payload@)),
        },
{
    match read_request(payload) {
        Some(request) => Some(RealtimeGetSession::start(topic, &request)),
        None => None,
    }
}


} // verus!
