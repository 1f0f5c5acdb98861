//! Device registration: registering devices, listing them, looking up their
//! ids, and removing them.

use vstd::prelude::*;
use crate::common::{
    read_request, request_value,
    app_name, array_field, clone_kvs, gen_topic, get_appname, get_array_items, get_text_or_empty,
    get_token, kv_views, response_topic, text_or_empty, token_of, token_readable, KeyValue,
};
use crate::deals::removal::{targets_view, RemovalSession};
use crate::guid::{decimal, decimal_text, digest, digest_of, lemma_decimal_injective};
use crate::json::{
    array_text, dump_array, dump_object, entry_views, json_quoted, member, member_value,
    object_text, owned, quote, Json, JsonEntry, JsonView,
};
use crate::protocol::{
    answers_to,
    reply_rows_within, rows_within, body_reply, body_response, entry, flag_of, reply_flag, rows_of, status_reply,
    status_response, text_entry, DbReply, DbReplyView, DbRequest, DbRequestView, Pairs, Rows,
    Step, StepView,
};
use crate::sql::rows_view;
use crate::text::{push_char, push_str, split_on, split_str, views};

verus! {

broadcast use vstd::string::group_string_axioms;

/// The fields a registration carries for each device, in order.
pub open spec fn device_fields() -> Seq<Seq<char>> {
    seq!["model"@, "port"@, "addr"@, "desc"@, "manuID"@, "isreport"@]
}

/// The fields naming a device.
pub open spec fn id_fields() -> Seq<Seq<char>> {
    seq!["model"@, "port"@, "addr"@]
}

/// The columns of the `device` table, in order.
pub open spec fn device_columns() -> Seq<Seq<char>> {
    seq!["model"@, "port"@, "addr"@, "desc"@, "guid"@, "appname"@, "manuID"@, "isreport"@]
}

/// The devices a request lists.
pub open spec fn listed_devices(request: JsonView) -> Seq<JsonView> {
    array_field(request, "body"@).map_values(|t: Seq<char>| member_value(t))
}

/// Each of the given fields of a device, as a pair (empty when missing).
pub open spec fn field_pairs(dev: JsonView, fields: Seq<Seq<char>>) -> Pairs {
    fields.map_values(|f: Seq<char>| (f, text_or_empty(dev, f)))
}

/// Every listed device has every one of the fields.
pub open spec fn all_have(request: JsonView, fields: Seq<Seq<char>>) -> bool {
    forall|i: int, j: int|
        0 <= i < listed_devices(request).len() && 0 <= j < fields.len() ==> #[trigger] text_or_empty(
            listed_devices(request)[i],
            fields[j],
        ).len() > 0
}

/// The id of a device: the decimal `DefaultHasher` digest of its model, port
/// and address, written in that order as UTF-8.
pub open spec fn device_guid(dev: JsonView) -> Seq<char> {
    decimal(
        digest(
            id_fields().map_values(|f: Seq<char>| vstd::utf8::encode_utf8(text_or_empty(dev, f))),
        ) as nat,
    )
}

/// A device's id depends on its model, port and address alone: two devices
/// that agree on those get the same id, and devices whose digests differ
/// get different ids.
pub proof fn lemma_device_guid_identity(d1: JsonView, d2: JsonView)
    ensures
        (forall|j: int| 0 <= j < id_fields().len() ==> text_or_empty(d1, #[trigger] id_fields()[j]) == text_or_empty(
            d2,
            id_fields()[j],
        )) ==> device_guid(d1) == device_guid(d2),
        device_guid(d1) == device_guid(d2) ==> digest(
            id_fields().map_values(|f: Seq<char>| vstd::utf8::encode_utf8(text_or_empty(d1, f))),
        ) == digest(id_fields().map_values(|f: Seq<char>| vstd::utf8::encode_utf8(text_or_empty(d2, f)))),
{
    let w1 = id_fields().map_values(|f: Seq<char>| vstd::utf8::encode_utf8(text_or_empty(d1, f)));
    let w2 = id_fields().map_values(|f: Seq<char>| vstd::utf8::encode_utf8(text_or_empty(d2, f)));
    if forall|j: int| 0 <= j < id_fields().len() ==> text_or_empty(d1, #[trigger] id_fields()[j]) == text_or_empty(
        d2,
        id_fields()[j],
    ) {
        assert(w1 =~= w2);
    }
    if device_guid(d1) == device_guid(d2) {
        lemma_decimal_injective(digest(w1) as nat, digest(w2) as nat);
    }
}

/// The row registered for a device.
pub open spec fn device_record(topic: Seq<char>, dev: JsonView) -> Pairs {
    field_pairs(dev, device_fields()).push(("appname"@, app_name(topic))).push(("guid"@, device_guid(dev)))
}

/// The rows registered for the devices of a request.
pub open spec fn device_records(topic: Seq<char>, request: JsonView) -> Seq<Pairs> {
    listed_devices(request).map_values(|d: JsonView| device_record(topic, d))
}

/// The condition naming a device: its model, port and address.
pub open spec fn id_of(record: Pairs) -> Pairs {
    record.take(3)
}

/// Where a registration stands.
#[derive(Clone, Copy, Debug, PartialEq, Eq, Structural)]
pub enum RegisterPhase {
    /// Waiting for whether the current device already has a row.
    CheckDevice,
    /// Waiting for the current device's row to be written.
    Write,
    Finished,
}

/// Registering devices, one after the other.
pub struct DeviceRegisterSession {
    pub topic: String,
    pub token: String,
    pub records: Vec<Vec<KeyValue>>,
    pub next: usize,
    pub phase: RegisterPhase,
}

impl DeviceRegisterSession {
    /// A bound on the database operations the session may still ask for:
    /// two per device from the current one on, one less once the current
    /// device's check is answered.
    pub open spec fn pending(&self) -> nat {
        match self.phase {
            RegisterPhase::CheckDevice => (2 * (self.records.len() - self.next)) as nat,
            RegisterPhase::Write => (2 * (self.records.len() - self.next) - 1) as nat,
            RegisterPhase::Finished => 0,
        }
    }

    pub open spec fn wf(&self) -> bool {
        &&& self.next <= self.records.len()
        &&& self.phase != RegisterPhase::Finished ==> self.next < self.records.len()
        &&& forall|i: int| 0 <= i < self.records.len() ==> #[trigger] targets_view(self.records@)[i].len() >= 3
    }

    /// The check for the current device, or the success reply after the last.
    pub open spec fn check_or_done(&self, next: int) -> (RegisterPhase, StepView) {
        if next < self.records.len() {
            (
                RegisterPhase::CheckDevice,
                StepView::Query(
                    DbRequestView::ExistsData {
                        table: "device"@,
                        params: id_of(targets_view(self.records@)[next]),
                    },
                ),
            )
        } else {
            (RegisterPhase::Finished, status_reply(self.topic@, self.token@, true))
        }
    }

    /// The phase and step that follow a reply: an existing device's row is
    /// updated, a new device's inserted; any failure ends with `FAILURE`.
    pub open spec fn after(&self, reply: DbReplyView) -> (RegisterPhase, StepView) {
        let fail = (RegisterPhase::Finished, status_reply(self.topic@, self.token@, false));
        let record = targets_view(self.records@)[self.next as int];
        match self.phase {
            RegisterPhase::CheckDevice => match flag_of(reply) {
                Some(true) => (
                    RegisterPhase::Write,
                    StepView::Query(
                        DbRequestView::UpdateData { table: "device"@, conditions: id_of(record), params: record },
                    ),
                ),
                Some(false) => (
                    RegisterPhase::Write,
                    StepView::Query(DbRequestView::InsertOneData { table: "device"@, params: record }),
                ),
                None => fail,
            },
            RegisterPhase::Write => if flag_of(reply) == Some(true) {
                self.check_or_done(self.next + 1)
            } else {
                fail
            },
            RegisterPhase::Finished => (RegisterPhase::Finished, StepView::Quit),
        }
    }
}

/// Registering one device: when the check finds it registered, its row is
/// updated where the model, port and address (its first three pairs) match,
/// and nowhere else; when the check finds it new, its whole row is
/// inserted; a failed check or write ends with `FAILURE`; and a row is
/// written only right after that device's check.
pub proof fn lemma_register_steps(s: DeviceRegisterSession, reply: DbReplyView)
    requires
        s.wf(),
    ensures
        s.phase == RegisterPhase::CheckDevice && flag_of(reply) == Some(true) ==> ({
            let record = targets_view(s.records@)[s.next as int];
            s.after(reply).1 == StepView::Query(
                DbRequestView::UpdateData {
                    table: "device"@,
                    conditions: seq![record[0], record[1], record[2]],
                    params: record,
                },
            )
        }),
        s.phase == RegisterPhase::CheckDevice && flag_of(reply) == Some(false) ==> s.after(reply).1
            == StepView::Query(
            DbRequestView::InsertOneData { table: "device"@, params: targets_view(s.records@)[s.next as int] },
        ),
        (s.phase == RegisterPhase::CheckDevice && flag_of(reply) is None) || (s.phase == RegisterPhase::Write
            && flag_of(reply) != Some(true)) ==> s.after(reply) == (
            RegisterPhase::Finished,
            status_reply(s.topic@, s.token@, false),
        ),
        s.after(reply).1 matches StepView::Query(q) && (q is UpdateData || q is InsertOneData) ==> s.phase
            == RegisterPhase::CheckDevice,
{
    if s.phase == RegisterPhase::CheckDevice {
        let record = targets_view(s.records@)[s.next as int];
        assert(record.len() >= 3);
        assert(id_of(record) =~= seq![record[0], record[1], record[2]]);
    }
}

/// The given fields of a device as pairs; none when one of them is missing.
fn device_pairs(dev: &Json, fields: &Vec<String>) -> (r: Option<Vec<KeyValue>>)
    ensures
        match r {
            Some(kv) => kv_views(kv@) == field_pairs(dev@, views(fields@))
                && forall|j: int| 0 <= j < fields.len() ==> #[trigger] text_or_empty(dev@, views(fields@)[j]).len() > 0,
            None => exists|j: int| 0 <= j < fields.len() && #[trigger] text_or_empty(dev@, views(fields@)[j]).len() == 0,
        },
{
    let ghost target = field_pairs(dev@, views(fields@));
    let mut kv: Vec<KeyValue> = Vec::new();
    let mut j: usize = 0;
    while j < fields.len()
        invariant
            j <= fields.len(),
            target == field_pairs(dev@, views(fields@)),
            kv_views(kv@) == target.take(j as int),
            forall|k: int| 0 <= k < j ==> #[trigger] text_or_empty(dev@, views(fields@)[k]).len() > 0,
        decreases fields.len() - j,
    {
        proof {
            assert(views(fields@)[j as int] == fields@[j as int]@);
        }
        let p = get_text_or_empty(fields[j].as_str(), dev);
        if p.as_str().is_empty() {
            return None;
        }
        kv.push(KeyValue { key: fields[j].clone(), value: p });
        proof {
            assert(kv_views(kv@) == kv_views(kv@.drop_last()).push(kv@.last()@));
            assert(target.take(j + 1) == target.take(j as int).push(target[j as int]));
        }
        j = j + 1;
    }
    proof {
        assert(target.take(fields.len() as int) == target);
    }
    Some(kv)
}

/// The list of the given names.
fn names3(a: &str, b: &str, c: &str) -> (r: Vec<String>)
    ensures
        views(r@) == seq![a@, b@, c@],
{
    let mut v: Vec<String> = Vec::new();
    v.push(owned(a));
    v.push(owned(b));
    v.push(owned(c));
    proof {
        assert(views(v@) =~= seq![a@, b@, c@]);
    }
    v
}

/// The fields a registration carries.
fn registration_fields() -> (r: Vec<String>)
    ensures
        views(r@) == device_fields(),
{
    let mut v: Vec<String> = Vec::new();
    v.push(owned("model"));
    v.push(owned("port"));
    v.push(owned("addr"));
    v.push(owned("desc"));
    v.push(owned("manuID"));
    v.push(owned("isreport"));
    proof {
        assert(views(v@) =~= device_fields());
    }
    v
}

/// The first `n` pairs.
fn first_pairs(kv: &Vec<KeyValue>, n: usize) -> (r: Vec<KeyValue>)
    requires
        n <= kv.len(),
    ensures
        kv_views(r@) == kv_views(kv@).take(n as int),
{
    let mut r: Vec<KeyValue> = Vec::new();
    let mut i: usize = 0;
    while i < n
        invariant
            i <= n <= kv.len(),
            kv_views(r@) == kv_views(kv@).take(i as int),
        decreases n - i,
    {
        r.push(kv[i].duplicate());
        proof {
            assert(kv_views(r@) == kv_views(r@.drop_last()).push(r@.last()@));
            assert(kv_views(kv@).take(i + 1) == kv_views(kv@).take(i as int).push(kv_views(kv@)[i as int]));
        }
        i = i + 1;
    }
    r
}

impl DeviceRegisterSession {
    /// What starting a registration gives for a request topic and request.
    pub open spec fn opened(topic: Seq<char>, request: JsonView, s: Self, step: StepView) -> bool {
        &&& s.wf()
        &&& s.topic@ == response_topic(topic)
        &&& s.token@ == token_of(request)
        &&& answers_to(step, s.topic@, s.token@)
        &&& all_have(request, device_fields()) ==> {
            &&& targets_view(s.records@) == device_records(topic, request)
            &&& s.next == 0
            &&& (s.phase, step) == s.check_or_done(0)
        }
        &&& !all_have(request, device_fields()) ==> {
            &&& s.phase == RegisterPhase::Finished
            &&& step == status_reply(s.topic@, s.token@, false)
        }
    }

    /// Begin registering the devices a request lists; a device without one
    /// of its fields fails the whole registration before anything is written.
    pub fn start(topic: &str, request: &Json) -> (r: (DeviceRegisterSession, Step))
        requires
            token_readable(request@),
        ensures
            Self::opened(topic@, request@, r.0, r.1@),
    {
        let reply_topic = gen_topic(topic);
        let app = get_appname(topic);
        let token = get_token(request);
        let devices = get_array_items("body", request);
        let fields = registration_fields();
        proof {
            assert(views(fields@).len() == fields.len());
        }
        let ghost devs = listed_devices(request@);
        let ghost target = device_records(topic@, request@);
        let mut records: Vec<Vec<KeyValue>> = Vec::new();
        let mut i: usize = 0;
        while i < devices.len()
            invariant
                i <= devices.len(),
                views(devices@) == array_field(request@, "body"@),
                devs == listed_devices(request@),
                target == device_records(topic@, request@),
                views(fields@) == device_fields(),
                fields.len() == 6,
                app@ == app_name(topic@),
                reply_topic@ == response_topic(topic@),
                token@ == token_of(request@),
                targets_view(records@) == target.take(i as int),
                forall|k: int, j: int|
                    0 <= k < i && 0 <= j < device_fields().len() ==> #[trigger] text_or_empty(devs[k], device_fields()[j]).len() > 0,
                forall|k: int| 0 <= k < records.len() ==> #[trigger] targets_view(records@)[k].len() >= 3,
            decreases devices.len() - i,
        {
            proof {
                assert(views(devices@)[i as int] == devices@[i as int]@);
            }
            let dev = member(devices[i].as_str());
            match device_pairs(&dev, &fields) {
                None => {
                    proof {
                        let j = choose|j: int| 0 <= j < fields.len() && #[trigger] text_or_empty(dev@, views(fields@)[j]).len() == 0;
                        assert(text_or_empty(devs[i as int], device_fields()[j]).len() == 0);
                    }
                    let session = DeviceRegisterSession {
                        topic: reply_topic.clone(),
                        token: token.clone(),
                        records: Vec::new(),
                        next: 0,
                        phase: RegisterPhase::Finished,
                    };
                    let step = status_response(&reply_topic, &token, false);
                    return (session, step);
                },
                Some(kv) => {
                    proof {
                        assert(kv_views(kv@).len() == kv@.len());
                        assert(field_pairs(dev@, views(fields@)).len() == 6);
                        assert(kv_views(kv@)[0] == kv@[0]@);
                        assert(kv_views(kv@)[1] == kv@[1]@);
                        assert(kv_views(kv@)[2] == kv@[2]@);
                    }
                    let mut hashed: Vec<String> = Vec::new();
                    hashed.push(kv[0].value.clone());
                    hashed.push(kv[1].value.clone());
                    hashed.push(kv[2].value.clone());
                    proof {
                        assert(hashed@.map_values(|p: String| vstd::utf8::encode_utf8(p@)) =~= id_fields().map_values(
                            |f: Seq<char>| vstd::utf8::encode_utf8(text_or_empty(dev@, f)),
                        ));
                    }
                    let guid = decimal_text(digest_of(&hashed));
                    let mut record = kv;
                    let ghost base = kv_views(record@);
                    record.push(KeyValue { key: owned("appname"), value: app.clone() });
                    record.push(KeyValue { key: owned("guid"), value: guid });
                    proof {
                        assert(kv_views(record@) =~= base.push(("appname"@, app@)).push(("guid"@, device_guid(dev@))));
                    }
                    proof {
                        assert(kv_views(record@).len() == 8);
                        assert(record@.len() == 8);
                    }
                    let ghost old_records = records@;
                    records.push(record);
                    proof {
                        assert(targets_view(records@) == targets_view(records@.drop_last()).push(kv_views(records@.last()@)));
                        assert(target.take(i + 1) == target.take(i as int).push(target[i as int]));
                        assert(devs[i as int] == dev@);
                        assert forall|k: int| 0 <= k < records.len() implies #[trigger] targets_view(records@)[k].len() >= 3 by {
                            if k < records.len() - 1 {
                                assert(records@.drop_last() == old_records);
                                assert(targets_view(records@)[k] == targets_view(old_records)[k]);
                            } else {
                                assert(targets_view(records@)[k] == kv_views(records@.last()@));
                                assert(kv_views(records@.last()@).len() == records@.last()@.len());
                            }
                        }
                    }
                },
            }
            i = i + 1;
        }
        proof {
            assert(target.take(devices.len() as int) == target);
        }
        let session = DeviceRegisterSession {
            topic: reply_topic,
            token,
            records,
            next: 0,
            phase: RegisterPhase::CheckDevice,
        };
        let (phase, step) = session.check_step(0);
        let session = DeviceRegisterSession { phase, ..session };
        (session, step)
    }

    /// The check for the device at `next`, or the success reply after the last.
    fn check_step(&self, next: usize) -> (r: (RegisterPhase, Step))
        requires
            next <= self.records.len(),
            forall|i: int| 0 <= i < self.records.len() ==> #[trigger] targets_view(self.records@)[i].len() >= 3,
        ensures
            (r.0, r.1@) == self.check_or_done(next as int),
    {
        if next < self.records.len() {
            proof {
                assert(targets_view(self.records@)[next as int] == kv_views(self.records@[next as int]@));
            }
            let params = first_pairs(&self.records[next], 3);
            (RegisterPhase::CheckDevice, Step::Query(DbRequest::ExistsData { table: owned("device"), params }))
        } else {
            (RegisterPhase::Finished, status_response(&self.topic, &self.token, true))
        }
    }

    /// Take the outcome of the pending operation and go on with the current
    /// device, the next one, or the reply.
    pub fn resume(&mut self, reply: DbReply) -> (r: Step)
        requires
            old(self).wf(),
        ensures
            answers_to(r@, old(self).topic@, old(self).token@),
            final(self).wf(),
            final(self).topic == old(self).topic,
            final(self).token == old(self).token,
            final(self).records == old(self).records,
            (final(self).phase, r@) == old(self).after(reply@),
            old(self).phase == RegisterPhase::Write && flag_of(reply@) == Some(true) ==> final(self).next == old(self).next + 1,
            !(old(self).phase == RegisterPhase::Write && flag_of(reply@) == Some(true)) ==> final(self).next == old(self).next,
            r@ is Query ==> final(self).pending() < old(self).pending(),
    {
        let flag = reply_flag(&reply);
        match self.phase {
            RegisterPhase::CheckDevice => {
                proof {
                    assert(targets_view(self.records@)[self.next as int] == kv_views(self.records@[self.next as int]@));
                }
                let record = clone_kvs(&self.records[self.next]);
                match flag {
                    Some(true) => {
                        let conditions = first_pairs(&record, 3);
                        self.phase = RegisterPhase::Write;
                        Step::Query(DbRequest::UpdateData { table: owned("device"), conditions, params: record })
                    },
                    Some(false) => {
                        self.phase = RegisterPhase::Write;
                        Step::Query(DbRequest::InsertOneData { table: owned("device"), params: record })
                    },
                    None => {
                        self.phase = RegisterPhase::Finished;
                        status_response(&self.topic, &self.token, false)
                    },
                }
            },
            RegisterPhase::Write => {
                if flag == Some(true) {
                    let (phase, step) = self.check_step(self.next + 1);
                    self.next = self.next + 1;
                    self.phase = phase;
                    step
                } else {
                    self.phase = RegisterPhase::Finished;
                    status_response(&self.topic, &self.token, false)
                }
            },
            RegisterPhase::Finished => Step::Quit,
        }
    }
}

/// The model, port and address of each listed device.
pub open spec fn id_lookups(request: JsonView) -> Seq<Pairs> {
    listed_devices(request).map_values(|d: JsonView| field_pairs(d, id_fields()))
}

/// The model, port and address of each listed device; none when a device
/// lacks one of them.
fn device_ids(request: &Json) -> (r: Option<Vec<Vec<KeyValue>>>)
    ensures
        match r {
            Some(ids) => all_have(request@, id_fields()) && targets_view(ids@) == id_lookups(request@),
            None => !all_have(request@, id_fields()),
        },
{
    let devices = get_array_items("body", request);
    let fields = names3("model", "port", "addr");
    proof {
        assert(seq!["model"@, "port"@, "addr"@] == id_fields());
        assert(views(fields@).len() == fields.len());
    }
    let ghost devs = listed_devices(request@);
    let ghost target = id_lookups(request@);
    let mut ids: Vec<Vec<KeyValue>> = Vec::new();
    let mut i: usize = 0;
    while i < devices.len()
        invariant
            i <= devices.len(),
            views(devices@) == array_field(request@, "body"@),
            devs == listed_devices(request@),
            target == id_lookups(request@),
            views(fields@) == id_fields(),
            targets_view(ids@) == target.take(i as int),
            forall|k: int, j: int|
                0 <= k < i && 0 <= j < id_fields().len() ==> #[trigger] text_or_empty(devs[k], id_fields()[j]).len() > 0,
        decreases devices.len() - i,
    {
        proof {
            assert(views(devices@)[i as int] == devices@[i as int]@);
        }
        let dev = member(devices[i].as_str());
        proof {
            assert(devs[i as int] == dev@);
        }
        match device_pairs(&dev, &fields) {
            None => {
                proof {
                    let j = choose|j: int| 0 <= j < fields.len() && #[trigger] text_or_empty(dev@, views(fields@)[j]).len() == 0;
                    assert(text_or_empty(devs[i as int], id_fields()[j]).len() == 0);
                }
                return None;
            },
            Some(kv) => {
                ids.push(kv);
                proof {
                    assert(targets_view(ids@) == targets_view(ids@.drop_last()).push(kv_views(ids@.last()@)));
                    assert(target.take(i + 1) == target.take(i as int).push(target[i as int]));
                }
            },
        }
        i = i + 1;
    }
    proof {
        assert(target.take(devices.len() as int) == target);
    }
    Some(ids)
}

/// The reply item for a device's id query: its id and its `model_guid` name,
/// from the first row; none when there is no row or the row is empty.
pub open spec fn guid_item(kv: Pairs, rows: Rows) -> Seq<Seq<char>> {
    if rows.len() == 0 || rows[0].len() == 0 {
        Seq::empty()
    } else {
        seq![
            object_text(
                seq![
                    ("guid"@, json_quoted(rows[0][0])),
                    ("dev"@, json_quoted(kv[0].1.push('_') + rows[0][0])),
                ],
            ),
        ]
    }
}

/// Looking up the ids of devices, one query per device.
pub struct DeviceGuidSession {
    pub topic: String,
    pub token: String,
    pub lookups: Vec<Vec<KeyValue>>,
    pub items: Vec<String>,
    pub next: usize,
}

impl DeviceGuidSession {
    /// A bound on the database operations the session may still ask for.
    pub open spec fn pending(&self) -> nat {
        (self.lookups.len() - self.next) as nat
    }

    pub open spec fn wf(&self) -> bool {
        &&& self.next <= self.lookups.len()
        &&& forall|i: int| 0 <= i < self.lookups.len() ==> #[trigger] targets_view(self.lookups@)[i].len() == 3
    }

    /// The next device's id query, or the reply with every id found.
    pub open spec fn step_after(&self) -> StepView {
        if self.next < self.lookups.len() {
            StepView::Query(
                DbRequestView::SelectByColumn {
                    table: "device"@,
                    keys: seq!["guid"@],
                    params: targets_view(self.lookups@)[self.next as int],
                },
            )
        } else {
            body_reply(self.topic@, self.token@, views(self.items@))
        }
    }

    fn current(&self) -> (r: Step)
        requires
            self.wf(),
        ensures
            r@ == self.step_after(),
    {
        if self.next < self.lookups.len() {
            proof {
                assert(targets_view(self.lookups@)[self.next as int] == kv_views(self.lookups@[self.next as int]@));
            }
            let mut keys: Vec<String> = Vec::new();
            keys.push(owned("guid"));
            proof {
                assert(views(keys@) =~= seq!["guid"@]);
            }
            Step::Query(
                DbRequest::SelectByColumn {
                    table: owned("device"),
                    keys,
                    params: clone_kvs(&self.lookups[self.next]),
                },
            )
        } else {
            body_response(&self.topic, &self.token, &self.items)
        }
    }

    /// What starting an id lookup gives for a request topic and request.
    pub open spec fn opened(topic: Seq<char>, request: JsonView, s: Self, step: StepView) -> bool {
        &&& s.wf()
        &&& s.topic@ == response_topic(topic)
        &&& s.token@ == token_of(request)
        &&& answers_to(step, s.topic@, s.token@)
        &&& s.items@.len() == 0
        &&& s.next == 0
        &&& all_have(request, id_fields()) ==> targets_view(s.lookups@) == id_lookups(request)
        &&& !all_have(request, id_fields()) ==> s.lookups@.len() == 0
        &&& step == s.step_after()
    }

    /// Begin looking up the ids of the devices a request lists; a device
    /// without model, port or address ends it at once with an empty body.
    pub fn start(topic: &str, request: &Json) -> (r: (DeviceGuidSession, Step))
        requires
            token_readable(request@),
        ensures
            Self::opened(topic@, request@, r.0, r.1@),
    {
        let reply_topic = gen_topic(topic);
        let token = get_token(request);
        let lookups = match device_ids(request) {
            Some(ids) => {
                proof {
                    assert forall|i: int| 0 <= i < ids.len() implies #[trigger] targets_view(ids@)[i].len() == 3 by {
                        assert(targets_view(ids@)[i] == id_lookups(request@)[i]);
                        assert(targets_view(ids@).len() == ids.len());
                        assert(id_lookups(request@).len() == listed_devices(request@).len());
                        assert(id_lookups(request@)[i] == field_pairs(listed_devices(request@)[i], id_fields()));
                        assert(id_fields().len() == 3);
                    }
                }
                ids
            },
            None => Vec::new(),
        };
        let s = DeviceGuidSession { topic: reply_topic, token, lookups, items: Vec::new(), next: 0 };
        let step = s.current();
        (s, step)
    }

    /// Whether the session waits on a device's rows.
    pub fn fits(&self, reply: &DbReply) -> (r: bool)
        ensures
            r == (self.next < self.lookups.len()),
    {
        self.next < self.lookups.len()
    }

    /// Take the rows for the pending device: the first row's first cell is
    /// its id.
    pub fn resume(&mut self, reply: DbReply) -> (r: Step)
        requires
            old(self).wf(),
            old(self).next < old(self).lookups.len(),
        ensures
            answers_to(r@, old(self).topic@, old(self).token@),
            final(self).wf(),
            final(self).topic == old(self).topic,
            final(self).token == old(self).token,
            final(self).lookups == old(self).lookups,
            final(self).next == old(self).next + 1,
            views(final(self).items@) == views(old(self).items@) + guid_item(
                targets_view(old(self).lookups@)[old(self).next as int],
                rows_of(reply@),
            ),
            r@ == final(self).step_after(),
            final(self).pending() < old(self).pending(),
    {
        let ghost before = views(self.items@);
        let ghost kvv = targets_view(self.lookups@)[self.next as int];
        proof {
            assert(kvv == kv_views(self.lookups@[self.next as int]@));
            assert(kvv.len() == 3);
        }
        match &reply {
            DbReply::Rows(Some(rows)) if rows.len() > 0 && rows[0].len() > 0 => {
                proof {
                    assert(views(rows@[0]@) == rows_of(reply@)[0]);
                    assert(kv_views(self.lookups@[self.next as int]@)[0] == self.lookups@[self.next as int]@[0]@);
                }
                let guid = &rows[0][0];
                let mut dev = self.lookups[self.next][0].value.clone();
                push_char(&mut dev, '_');
                push_str(&mut dev, guid.as_str());
                let mut es: Vec<JsonEntry> = Vec::new();
                es.push(text_entry("guid", guid.as_str()));
                es.push(text_entry("dev", dev.as_str()));
                proof {
                    assert(entry_views(es@) =~= seq![
                        ("guid"@, json_quoted(rows_of(reply@)[0][0])),
                        ("dev"@, json_quoted(kvv[0].1.push('_') + rows_of(reply@)[0][0])),
                    ]);
                }
                self.items.push(dump_object(&es));
                proof {
                    assert(views(self.items@) =~= before + guid_item(kvv, rows_of(reply@)));
                }
            },
            _ => {
                proof {
                    assert(before + guid_item(kvv, rows_of(reply@)) =~= before);
                }
            },
        }
        self.next = self.next + 1;
        self.current()
    }
}

/// What starting a device removal gives for a request topic and request.
pub open spec fn device_cancel_opened(topic: Seq<char>, request: JsonView, s: RemovalSession, step: StepView) -> bool {
    &&& s.wf()
    &&& s.topic@ == response_topic(topic)
    &&& s.token@ == token_of(request)
    &&& answers_to(step, s.topic@, s.token@)
    &&& s.table@ == "device"@
    &&& all_have(request, id_fields()) ==> {
        &&& targets_view(s.targets@) == id_lookups(request)
        &&& s.next == 0
        &&& !s.finished
        &&& step == s.step_after()
    }
    &&& !all_have(request, id_fields()) ==> {
        &&& s.finished
        &&& step == status_reply(s.topic@, s.token@, false)
    }
}

/// Begin removing the devices a request lists from the `device` table; a
/// device without model, port or address ends it at once with `FAILURE`.
pub fn device_cancel_start(topic: &str, request: &Json) -> (r: (RemovalSession, Step))
    requires
        token_readable(request@),
    ensures
        device_cancel_opened(topic@, request@, r.0, r.1@),
{
    let reply_topic = gen_topic(topic);
    let token = get_token(request);
    match device_ids(request) {
        Some(ids) => RemovalSession::begin(reply_topic, token, owned("device"), ids),
        None => {
            let step = status_response(&reply_topic, &token, false);
            let s = RemovalSession {
                topic: reply_topic,
                token,
                table: owned("device"),
                targets: Vec::new(),
                next: 0,
                finished: true,
            };
            (s, step)
        },
    }
}

/// The grouping key of a device row: its model and port joined by `/`.
pub open spec fn row_key(row: Seq<Seq<char>>) -> Seq<char> {
    row[0].push('/') + row[1]
}

/// The distinct grouping keys of the rows, in order of first appearance.
pub open spec fn group_keys(rows: Rows) -> Seq<Seq<char>>
    decreases rows.len(),
{
    if rows.len() == 0 {
        Seq::empty()
    } else {
        let ks = group_keys(rows.drop_last());
        if ks.contains(row_key(rows.last())) {
            ks
        } else {
            ks.push(row_key(rows.last()))
        }
    }
}

/// One device row as listed: its columns after model and port, named.
pub open spec fn device_entry(row: Seq<Seq<char>>) -> Seq<char> {
    object_text(
        Seq::new(
            (row.len() - 2) as nat,
            |i: int| (device_columns()[i + 2], json_quoted(row[i + 2])),
        ),
    )
}

/// The listed devices of the rows with the given key, in row order.
pub open spec fn group_entries(rows: Rows, k: Seq<char>) -> Seq<Seq<char>>
    decreases rows.len(),
{
    if rows.len() == 0 {
        Seq::empty()
    } else {
        let g = group_entries(rows.drop_last(), k);
        if row_key(rows.last()) == k {
            g.push(device_entry(rows.last()))
        } else {
            g
        }
    }
}

/// The listing item of one group: the model and port read back from the key
/// (its first two `/`-separated pieces) and the group's devices.
pub open spec fn group_item(rows: Rows, k: Seq<char>) -> Seq<char> {
    let sps = split_on(k, '/');
    object_text(
        seq![
            ("model"@, json_quoted(sps[0])),
            ("port"@, json_quoted(sps[1])),
            ("body"@, array_text(group_entries(rows, k))),
        ],
    )
}

/// The device listing: one item per model and port, in order of first appearance.
pub open spec fn device_listing(rows: Rows) -> Seq<Seq<char>> {
    group_keys(rows).map_values(|k: Seq<char>| group_item(rows, k))
}

/// Every row has the model and port columns and no more columns than the table.
pub open spec fn rows_fit(rows: Rows) -> bool {
    rows_within(rows, 2, 8)
}

proof fn lemma_absent_group(rows: Rows, k: Seq<char>)
    requires
        !group_keys(rows).contains(k),
    ensures
        group_entries(rows, k) == Seq::<Seq<char>>::empty(),
    decreases rows.len(),
{
    if rows.len() > 0 {
        let ks = group_keys(rows.drop_last());
        if ks.contains(k) {
            assert(group_keys(rows).contains(k)) by {
                let j = choose|j: int| 0 <= j < ks.len() && ks[j] == k;
                if !ks.contains(row_key(rows.last())) {
                    assert(group_keys(rows)[j] == k);
                }
            }
        }
        if row_key(rows.last()) == k {
            assert(group_keys(rows).contains(k)) by {
                if ks.contains(row_key(rows.last())) {
                } else {
                    assert(group_keys(rows)[ks.len() as int] == k);
                }
            }
        }
        lemma_absent_group(rows.drop_last(), k);
    }
}

/// The number of devices listed under the given keys.
pub open spec fn listed_count(rows: Rows, keys: Seq<Seq<char>>) -> nat
    decreases keys.len(),
{
    if keys.len() == 0 {
        0
    } else {
        listed_count(rows, keys.drop_last()) + group_entries(rows, keys.last()).len()
    }
}

/// Adding a row adds one device to the group of its key, if that key is
/// among the given distinct keys.
proof fn lemma_listed_count_push(rows: Rows, row: Seq<Seq<char>>, keys: Seq<Seq<char>>)
    requires
        keys.no_duplicates(),
    ensures
        listed_count(rows.push(row), keys) == listed_count(rows, keys) + (if keys.contains(row_key(row)) {
            1int
        } else {
            0int
        }),
    decreases keys.len(),
{
    assert(rows.push(row).drop_last() =~= rows);
    if keys.len() > 0 {
        let init = keys.drop_last();
        assert forall|a: int, b: int| 0 <= a < b < init.len() implies init[a] != init[b] by {
            assert(init[a] == keys[a] && init[b] == keys[b]);
        }
        lemma_listed_count_push(rows, row, init);
        if row_key(row) == keys.last() {
            assert(!init.contains(row_key(row))) by {
                if init.contains(row_key(row)) {
                    let j = choose|j: int| 0 <= j < init.len() && init[j] == row_key(row);
                    assert(keys[j] == keys[keys.len() - 1]);
                }
            }
            assert(keys.contains(row_key(row))) by {
                assert(keys[keys.len() - 1] == row_key(row));
            }
        } else {
            assert(keys.contains(row_key(row)) == init.contains(row_key(row))) by {
                if keys.contains(row_key(row)) {
                    let j = choose|j: int| 0 <= j < keys.len() && keys[j] == row_key(row);
                    assert(j < init.len());
                    assert(init[j] == row_key(row));
                }
                if init.contains(row_key(row)) {
                    let j = choose|j: int| 0 <= j < init.len() && init[j] == row_key(row);
                    assert(keys[j] == row_key(row));
                }
            }
        }
    }
}

/// The device listing loses no device and lists none twice: its groups have
/// distinct keys, every row's model and port is a group, and the groups hold
/// as many devices as there are rows.
pub proof fn lemma_listing_complete(rows: Rows)
    ensures
        group_keys(rows).no_duplicates(),
        forall|i: int| 0 <= i < rows.len() ==> group_keys(rows).contains(#[trigger] row_key(rows[i])),
        listed_count(rows, group_keys(rows)) == rows.len(),
        device_listing(rows).len() == group_keys(rows).len(),
    decreases rows.len(),
{
    if rows.len() > 0 {
        let prev = rows.drop_last();
        let row = rows.last();
        assert(prev.push(row) =~= rows);
        lemma_listing_complete(prev);
        let ks = group_keys(prev);
        lemma_listed_count_push(prev, row, ks);
        if ks.contains(row_key(row)) {
            assert(group_keys(rows) == ks);
        } else {
            let nk = ks.push(row_key(row));
            assert(group_keys(rows) == nk);
            assert forall|a: int, b: int| 0 <= a < b < nk.len() implies nk[a] != nk[b] by {
                if b == ks.len() {
                    assert(nk[a] == ks[a]);
                    assert(ks.contains(ks[a]));
                } else {
                    assert(nk[a] == ks[a] && nk[b] == ks[b]);
                }
            }
            assert(nk.drop_last() =~= ks);
            lemma_absent_group(prev, row_key(row));
            assert(group_entries(rows, row_key(row)) =~= group_entries(prev, row_key(row)).push(device_entry(row)));
            assert(listed_count(rows, nk) == listed_count(rows, ks) + group_entries(rows, row_key(row)).len());
        }
        assert forall|i: int| 0 <= i < rows.len() implies group_keys(rows).contains(#[trigger] row_key(rows[i])) by {
            if i < prev.len() {
                assert(prev[i] == rows[i]);
                assert(ks.contains(row_key(prev[i])));
                let j = choose|j: int| 0 <= j < ks.len() && ks[j] == row_key(prev[i]);
                assert(group_keys(rows)[j] == ks[j]);
            } else {
                assert(rows[i] == row);
                if ks.contains(row_key(row)) {
                } else {
                    assert(group_keys(rows)[ks.len() as int] == row_key(row));
                }
            }
        }
    }
}

/// Listing the registered devices grouped by model and port.
pub struct DeviceListSession {
    pub topic: String,
    pub token: String,
    pub finished: bool,
}

/// The position of `k` among the keys.
fn key_position(keys: &Vec<String>, k: &String) -> (r: Option<usize>)
    ensures
        match r {
            Some(j) => j < keys.len() && views(keys@)[j as int] == k@,
            None => !views(keys@).contains(k@),
        },
{
    let mut j: usize = 0;
    while j < keys.len()
        invariant
            j <= keys.len(),
            forall|m: int| 0 <= m < j ==> views(keys@)[m] != k@,
        decreases keys.len() - j,
    {
        if keys[j] == *k {
            return Some(j);
        }
        j = j + 1;
    }
    None
}

/// The columns of the `device` table.
fn table_columns() -> (r: Vec<String>)
    ensures
        views(r@) == device_columns(),
        r.len() == 8,
{
    let mut v: Vec<String> = Vec::new();
    v.push(owned("model"));
    v.push(owned("port"));
    v.push(owned("addr"));
    v.push(owned("desc"));
    v.push(owned("guid"));
    v.push(owned("appname"));
    v.push(owned("manuID"));
    v.push(owned("isreport"));
    proof {
        assert(views(v@) =~= device_columns());
    }
    v
}

/// One device row as listed.
fn entry_of(row: &Vec<String>, columns: &Vec<String>) -> (r: String)
    requires
        2 <= row.len() <= 8,
        views(columns@) == device_columns(),
        columns.len() == 8,
    ensures
        r@ == device_entry(views(row@)),
{
    let ghost rv = views(row@);
    let ghost target = Seq::new((rv.len() - 2) as nat, |i: int| (device_columns()[i + 2], json_quoted(rv[i + 2])));
    let mut es: Vec<JsonEntry> = Vec::new();
    let mut i: usize = 2;
    while i < row.len()
        invariant
            2 <= i <= row.len() <= 8,
            rv == views(row@),
            views(columns@) == device_columns(),
            columns.len() == 8,
            target == Seq::new((rv.len() - 2) as nat, |i: int| (device_columns()[i + 2], json_quoted(rv[i + 2]))),
            entry_views(es@) == target.take(i - 2),
        decreases row.len() - i,
    {
        proof {
            assert(views(columns@)[i as int] == columns@[i as int]@);
            assert(rv[i as int] == row@[i as int]@);
        }
        es.push(text_entry(columns[i].as_str(), row[i].as_str()));
        proof {
            assert(entry_views(es@) == entry_views(es@.drop_last()).push(es@.last()@));
            assert(target.take(i + 1 - 2) =~= target.take(i - 2).push(target[i - 2]));
        }
        i = i + 1;
    }
    proof {
        assert(target.take(row.len() - 2) == target);
    }
    dump_object(&es)
}

impl DeviceListSession {
    /// What starting a device listing gives for a request topic and request.
    pub open spec fn opened(topic: Seq<char>, request: JsonView, s: Self, step: StepView) -> bool {
        &&& s.topic@ == response_topic(topic)
        &&& s.token@ == token_of(request)
        &&& answers_to(step, s.topic@, s.token@)
        &&& !s.finished
        &&& step == StepView::Query(DbRequestView::SelectAll { table: "device"@ })
    }

    /// Begin listing the registered devices: ask for every row of `device`.
    pub fn start(topic: &str, request: &Json) -> (r: (DeviceListSession, Step))
        requires
            token_readable(request@),
        ensures
            Self::opened(topic@, request@, r.0, r.1@),
    {
        let s = DeviceListSession { topic: gen_topic(topic), token: get_token(request), finished: false };
        (s, Step::Query(DbRequest::SelectAll { table: owned("device") }))
    }

    /// Whether the rows can be taken: each has between the model and port
    /// columns and all the table's columns.
    pub fn fits(&self, reply: &DbReply) -> (r: bool)
        ensures
            r == rows_fit(rows_of(reply@)),
    {
        reply_rows_within(reply, 2, 8)
    }

    /// Reply with the devices grouped by model and port (no group when the
    /// query failed or found nothing).
    pub fn resume(&mut self, reply: DbReply) -> (r: Step)
        requires
            rows_fit(rows_of(reply@)),
        ensures
            answers_to(r@, old(self).topic@, old(self).token@),
            final(self).topic == old(self).topic,
            final(self).token == old(self).token,
            final(self).finished,
            old(self).finished ==> r@ == StepView::Quit,
            !old(self).finished ==> r@ == body_reply(old(self).topic@, old(self).token@, device_listing(rows_of(reply@))),
    {
        if self.finished {
            return Step::Quit;
        }
        self.finished = true;
        let empty_rows: Vec<Vec<String>> = Vec::new();
        let rows: &Vec<Vec<String>> = match &reply {
            DbReply::Rows(Some(rs)) => rs,
            _ => &empty_rows,
        };
        proof {
            assert(rows_view(empty_rows@) =~= Seq::<Seq<Seq<char>>>::empty());
        }
        let ghost rv = rows_view(rows@);
        let columns = table_columns();
        let mut keys: Vec<String> = Vec::new();
        let mut groups: Vec<Vec<String>> = Vec::new();
        let mut i: usize = 0;
        while i < rows.len()
            invariant
                i <= rows.len(),
                rv == rows_view(rows@),
                rv == rows_of(reply@),
                rows_fit(rv),
                views(columns@) == device_columns(),
                columns.len() == 8,
                views(keys@) == group_keys(rv.take(i as int)),
                views(keys@).no_duplicates(),
                forall|m: int| 0 <= m < keys.len() ==> split_on(#[trigger] views(keys@)[m], '/').len() >= 2,
                groups.len() == keys.len(),
                forall|j: int| 0 <= j < groups.len() ==> views(#[trigger] groups@[j]@) == group_entries(rv.take(i as int), views(keys@)[j]),
            decreases rows.len() - i,
        {
            let row = &rows[i];
            proof {
                assert(views(row@) == rv[i as int]);
                assert(2 <= rv[i as int].len() <= 8);
                assert(rv.take(i + 1).drop_last() == rv.take(i as int));
                assert(rv.take(i + 1).last() == rv[i as int]);
            }
            let mut key = row[0].clone();
            push_char(&mut key, '/');
            push_str(&mut key, row[1].as_str());
            let e = entry_of(row, &columns);
            let ghost prev = rv.take(i as int);
            let ghost next_rows = rv.take(i + 1);
            let ghost kv = views(keys@);
            match key_position(&keys, &key) {
                Some(j) => {
                    let ghost old_groups = groups@;
                    let mut g = groups[j].clone();
                    g.push(e);
                    groups.set(j, g);
                    proof {
                        assert forall|m: int| 0 <= m < groups.len() implies views(#[trigger] groups@[m]@) == group_entries(next_rows, views(keys@)[m]) by {
                            if m == j {
                                assert(views(groups@[m]@) == views(old_groups[m]@).push(e@));
                            } else {
                                assert(kv[m] != kv[j as int]);
                                assert(groups@[m] == old_groups[m]);
                            }
                        }
                        assert(kv.contains(key@));
                    }
                },
                None => {
                    proof {
                        lemma_absent_group(prev, key@);
                        crate::text::lemma_split_two(rv[i as int][0], rv[i as int][1], '/');
                        assert(views(row@)[0] == row@[0]@);
                        assert(views(row@)[1] == row@[1]@);
                    }
                    let ghost old_groups = groups@;
                    keys.push(key.clone());
                    let mut g: Vec<String> = Vec::new();
                    g.push(e);
                    groups.push(g);
                    proof {
                        assert(views(keys@) == kv.push(key@));
                        assert forall|m: int| 0 <= m < keys.len() implies split_on(#[trigger] views(keys@)[m], '/').len() >= 2 by {
                            if m < kv.len() {
                                assert(views(keys@)[m] == kv[m]);
                            }
                        }
                        assert forall|m: int| 0 <= m < groups.len() implies views(#[trigger] groups@[m]@) == group_entries(next_rows, views(keys@)[m]) by {
                            if m == groups.len() - 1 {
                                assert(views(groups@[m]@) =~= Seq::<Seq<char>>::empty().push(e@));
                            } else {
                                assert(groups@[m] == old_groups[m]);
                                assert(views(keys@)[m] == kv[m]);
                                assert(kv[m] != key@);
                            }
                        }
                        assert forall|a: int, b: int| 0 <= a < b < views(keys@).len() implies views(keys@)[a] != views(keys@)[b] by {
                            if b == views(keys@).len() - 1 {
                                assert(views(keys@)[b] == key@);
                                assert(views(keys@)[a] == kv[a]);
                            } else {
                                assert(views(keys@)[a] == kv[a]);
                                assert(views(keys@)[b] == kv[b]);
                            }
                        }
                    }
                },
            }
            i = i + 1;
        }
        proof {
            assert(rv.take(rows.len() as int) == rv);
        }
        let ghost target = device_listing(rv);
        let mut items: Vec<String> = Vec::new();
        let mut j: usize = 0;
        while j < keys.len()
            invariant
                j <= keys.len(),
                groups.len() == keys.len(),
                views(keys@) == group_keys(rv),
                target == device_listing(rv),
                forall|m: int| 0 <= m < groups.len() ==> views(#[trigger] groups@[m]@) == group_entries(rv, views(keys@)[m]),
                forall|m: int| 0 <= m < keys.len() ==> split_on(#[trigger] views(keys@)[m], '/').len() >= 2,
                views(items@) == target.take(j as int),
            decreases keys.len() - j,
        {
            proof {
                assert(views(keys@)[j as int] == keys@[j as int]@);
                assert(split_on(views(keys@)[j as int], '/').len() >= 2);
            }
            let sps = split_str(keys[j].as_str(), '/');
            let mut es: Vec<JsonEntry> = Vec::new();
            es.push(text_entry("model", sps[0].as_str()));
            es.push(text_entry("port", sps[1].as_str()));
            es.push(entry("body", dump_array(&groups[j])));
            proof {
                assert(views(sps@)[0] == sps@[0]@);
                assert(views(sps@)[1] == sps@[1]@);
                assert(entry_views(es@) =~= seq![
                    ("model"@, json_quoted(split_on(keys@[j as int]@, '/')[0])),
                    ("port"@, json_quoted(split_on(keys@[j as int]@, '/')[1])),
                    ("body"@, array_text(group_entries(rv, keys@[j as int]@))),
                ]);
            }
            items.push(dump_object(&es));
            proof {
                assert(views(items@) == views(items@.drop_last()).push(items@.last()@));
                assert(target.take(j + 1) == target.take(j as int).push(target[j as int]));
            }
            j = j + 1;
        }
        proof {
            assert(target.take(keys.len() as int) == target);
        }
        body_response(&self.topic, &self.token, &items)
    }
}

/// Handle a request to register devices: read the payload and begin.
/// None when the request's `token` member is neither absent, null nor a
/// string.
pub fn response_device_register(topic: &str, payload: &str) -> (r: Option<(DeviceRegisterSession, Step)>)
    ensures
        match r {
            Some((s, step)) => token_readable(request_value(payload@)) && DeviceRegisterSession::opened(topic@, request_value(payload@), s, step@),
            None => !token_readable(request_value(payload@)),
        },
{
    match read_request(payload) {
        Some(request) => Some(DeviceRegisterSession::start(topic, &request)),
        None => None,
    }
}

/// Handle a request to list the registered devices: read the payload and begin.
/// None when the request's `token` member is neither absent, null nor a
/// string.
pub fn response_device_register_get(topic: &str, payload: &str) -> (r: Option<(DeviceListSession, Step)>)
    ensures
        match r {
            Some((s, step)) => token_readable(request_value(payload@)) && DeviceListSession::opened(topic@, request_value(payload@), s, step@),
            None => !token_readable(request_value(payload@)),
        },
{
    match read_request(payload) {
        Some(request) => Some(DeviceListSession::start(topic, &request)),
        None => None,
    }
}

/// Handle a request for the ids of devices: read the payload and begin.
/// None when the request's `token` member is neither absent, null nor a
/// string.
pub fn response_device_guid_get(topic: &str, payload: &str) -> (r: Option<(DeviceGuidSession, Step)>)
    ensures
        match r {
            Some((s, step)) => token_readable(request_value(payload@)) && DeviceGuidSession::opened(topic@, request_value(payload@), s, step@),
            None => !token_readable(request_value(payload@)),
        },
{
    match read_request(payload) {
        Some(request) => Some(DeviceGuidSession::start(topic, &request)),
        None => None,
    }
}

/// Handle a request to remove devices: read the payload and begin.
/// None when the request's `token` member is neither absent, null nor a
/// string.
pub fn response_device_cancel_register(topic: &str, payload: &str) -> (r: Option<(RemovalSession, Step)>)
    ensures
        match r {
            Some((s, step)) => token_readable(request_value(payload@)) && device_cancel_opened(topic@, request_value(payload@), s, step@),
            None => !token_readable(request_value(payload@)),
        },
{
    match read_request(payload) {
        Some(request) => Some(device_cancel_start(topic, &request)),
        None => None,
    }
}


} // verus!
