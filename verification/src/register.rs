//! Routing of incoming messages to the callbacks registered for topic patterns.

use vstd::prelude::*;
use vstd::hash_map::StringHashMap;
use crate::json::owned;
use crate::text::{
    free_of, join, join_strings, lemma_split_join, pieces_free_of, split_on, split_str, views,
};

verus! {

broadcast use vstd::string::group_string_axioms;

/// Callbacks keyed by topic pattern.
#[verifier::reject_recursive_types(F)]
pub struct Register<F> {
    pub callbacks: StringHashMap<F>,
}

impl<F> View for Register<F> {
    type V = Map<Seq<char>, F>;

    open spec fn view(&self) -> Map<Seq<char>, F> {
        self.callbacks@
    }
}

/// The pattern under which the callback for a topic is looked up: the first
/// segment becomes `+`, and for a `notify` topic (second segment `notify`)
/// so do the last two segments.
pub open spec fn route_key(topic: Seq<char>) -> Seq<char> {
    let t = split_on(topic, '/');
    let notify = t[1] == "notify"@;
    join(
        Seq::new(
            t.len(),
            |i: int|
                if i == 0 || (notify && i >= t.len() - 2) {
                    seq!['+']
                } else {
                    t[i]
                },
        ),
        seq!['/'],
    )
}

/// The topic has at least two `/`-separated segments.
pub open spec fn routable(topic: Seq<char>) -> bool {
    split_on(topic, '/').len() >= 2
}

/// A request `app/rest...` (second segment not `notify`) is looked up under
/// `+/rest...`, whatever the application.
pub proof fn lemma_request_route(app: Seq<char>, rest: Seq<Seq<char>>)
    requires
        free_of(app, '/'),
        pieces_free_of(rest, '/'),
        rest.len() >= 1,
        rest[0] != "notify"@,
    ensures
        route_key(join(seq![app] + rest, seq!['/'])) == join(seq!["+"@] + rest, seq!['/']),
{
    reveal_strlit("+");
    let v = seq![app] + rest;
    assert forall|i: int| 0 <= i < v.len() implies free_of(#[trigger] v[i], '/') by {
        if i > 0 {
            assert(v[i] == rest[i - 1]);
        }
    }
    lemma_split_join(v, '/');
    let t = split_on(join(v, seq!['/']), '/');
    assert("+"@ =~= seq!['+']);
    assert(t == v);
    assert(t[1] == rest[0]);
    let mapped = Seq::new(
        t.len(),
        |i: int|
            if i == 0 || (t[1] == "notify"@ && i >= t.len() - 2) {
                seq!['+']
            } else {
                t[i]
            },
    );
    assert(mapped =~= seq!["+"@] + rest);
}

/// A notification `app/notify/.../model/device` is looked up under
/// `+/notify/.../+/+`, whatever the application, model and device.
pub proof fn lemma_notify_route(app: Seq<char>, middle: Seq<Seq<char>>, model: Seq<char>, device: Seq<char>)
    requires
        free_of(app, '/'),
        pieces_free_of(middle, '/'),
        free_of(model, '/'),
        free_of(device, '/'),
        middle.len() >= 1,
        middle[0] == "notify"@,
    ensures
        route_key(join(seq![app] + middle + seq![model, device], seq!['/'])) == join(
            seq!["+"@] + middle + seq!["+"@, "+"@],
            seq!['/'],
        ),
{
    reveal_strlit("+");
    let v = seq![app] + middle + seq![model, device];
    assert forall|i: int| 0 <= i < v.len() implies free_of(#[trigger] v[i], '/') by {
        if 0 < i <= middle.len() {
            assert(v[i] == middle[i - 1]);
        }
    }
    lemma_split_join(v, '/');
    let t = split_on(join(v, seq!['/']), '/');
    assert("+"@ =~= seq!['+']);
    assert(t == v);
    assert(t[1] == middle[0]);
    let mapped = Seq::new(
        t.len(),
        |i: int|
            if i == 0 || (t[1] == "notify"@ && i >= t.len() - 2) {
                seq!['+']
            } else {
                t[i]
            },
    );
    assert(mapped =~= seq!["+"@] + middle + seq!["+"@, "+"@]);
}

/// The pattern under which the callback for `topic` is looked up.
pub fn route_pattern(topic: &str) -> (r: String)
    requires
        routable(topic@),
    ensures
        r@ == route_key(topic@),
{
    proof {
        reveal_strlit("notify");
        reveal_strlit("+");
        reveal_strlit("/");
        assert("+"@ =~= seq!['+']);
        assert("/"@ =~= seq!['/']);
    }
    let trans = split_str(topic, '/');
    let len = trans.len();
    let notify = trans[1] == owned("notify");
    let ghost t = views(trans@);
    let ghost target = Seq::new(
        t.len(),
        |i: int|
            if i == 0 || (notify && i >= t.len() - 2) {
                seq!['+']
            } else {
                t[i]
            },
    );
    let mut parts: Vec<String> = Vec::new();
    let mut i: usize = 0;
    while i < len
        invariant
            i <= len,
            len == trans.len(),
            len >= 2,
            t == views(trans@),
            notify == (t[1] == "notify"@),
            target.len() == len,
            forall|j: int|
                0 <= j < len ==> #[trigger] target[j] == (if j == 0 || (notify && j >= len - 2) {
                    seq!['+']
                } else {
                    t[j]
                }),
            views(parts@) == target.take(i as int),
            "+"@ == seq!['+'],
        decreases len - i,
    {
        if i == 0 || (notify && i >= len - 2) {
            parts.push(owned("+"));
        } else {
            parts.push(trans[i].clone());
        }
        proof {
            assert(views(parts@) == views(parts@.drop_last()).push(parts@.last()@));
            assert(target.take(i + 1) == target.take(i as int).push(target[i as int]));
        }
        i = i + 1;
    }
    proof {
        assert(target.take(len as int) == target);
    }
    join_strings(&parts, "/")
}

/// The handlers the service serves, one per topic pattern it subscribes to.
pub struct StaticHandlers<F> {
    pub version: F,
    pub model_set: F,
    pub model_get: F,
    pub model_schema: F,
    pub model_delete: F,
    pub device_register: F,
    pub device_register_get: F,
    pub device_guid_get: F,
    pub device_cancel_register: F,
    pub realtime_set: F,
    pub realtime_get: F,
}

/// The route table after registering the static handlers on `m`.
pub open spec fn with_static_routes<F>(m: Map<Seq<char>, F>, h: StaticHandlers<F>) -> Map<Seq<char>, F> {
    m.insert("+/get/request/database/version"@, h.version)
        .insert("+/set/request/database/model"@, h.model_set)
        .insert("+/get/request/database/model"@, h.model_get)
        .insert("+/get/request/database/modelschema"@, h.model_schema)
        .insert("+/action/request/database/deletemodel"@, h.model_delete)
        .insert("+/set/request/database/register"@, h.device_register)
        .insert("+/get/request/database/register"@, h.device_register_get)
        .insert("+/get/request/database/guid"@, h.device_guid_get)
        .insert("+/action/request/database/unregister"@, h.device_cancel_register)
        .insert("+/notify/event/database/+/+"@, h.realtime_set)
        .insert("+/get/request/database/realtime"@, h.realtime_get)
}

/// Once the static handlers are registered, a version query published by any
/// application (`app/get/request/database/version`) finds the version handler.
pub proof fn lemma_version_dispatch<F>(m: Map<Seq<char>, F>, h: StaticHandlers<F>, app: Seq<char>)
    requires
        free_of(app, '/'),
    ensures
        ({
            let topic = join(seq![app, "get"@, "request"@, "database"@, "version"@], seq!['/']);
            let routes = with_static_routes(m, h);
            &&& routable(topic)
            &&& routes.contains_key(route_key(topic))
            &&& routes[route_key(topic)] == h.version
        }),
{
    reveal_strlit("get");
    reveal_strlit("request");
    reveal_strlit("database");
    reveal_strlit("version");
    reveal_strlit("notify");
    reveal_strlit("+");
    reveal_strlit("+/get/request/database/version");
    reveal_strlit("+/set/request/database/model");
    reveal_strlit("+/get/request/database/model");
    reveal_strlit("+/get/request/database/modelschema");
    reveal_strlit("+/action/request/database/deletemodel");
    reveal_strlit("+/set/request/database/register");
    reveal_strlit("+/get/request/database/register");
    reveal_strlit("+/get/request/database/guid");
    reveal_strlit("+/action/request/database/unregister");
    reveal_strlit("+/notify/event/database/+/+");
    reveal_strlit("+/get/request/database/realtime");
    let rest = seq!["get"@, "request"@, "database"@, "version"@];
    assert("get"@ != "notify"@) by {
        assert("get"@.len() != "notify"@.len());
    }
    assert(pieces_free_of(rest, '/')) by {
        assert forall|i: int| 0 <= i < rest.len() implies free_of(#[trigger] rest[i], '/') by {
            assert(rest[i] == "get"@ || rest[i] == "request"@ || rest[i] == "database"@ || rest[i] == "version"@);
        }
    }
    lemma_request_route(app, rest);
    assert(seq![app] + rest =~= seq![app, "get"@, "request"@, "database"@, "version"@]);
    let v = seq![app] + rest;
    lemma_split_join(v, '/');
    let key = join(seq!["+"@] + rest, seq!['/']);
    assert(key =~= "+/get/request/database/version"@) by {
        reveal_with_fuel(join, 6);
        assert(seq!["+"@] + rest =~= seq!["+"@, "get"@, "request"@, "database"@, "version"@]);
    }
}

/// Once the static handlers are registered, a realtime report published by
/// any application for any model and device
/// (`app/notify/event/database/model/device`) finds the realtime handler.
pub proof fn lemma_report_dispatch<F>(
    m: Map<Seq<char>, F>,
    h: StaticHandlers<F>,
    app: Seq<char>,
    model: Seq<char>,
    device: Seq<char>,
)
    requires
        free_of(app, '/'),
        free_of(model, '/'),
        free_of(device, '/'),
    ensures
        ({
            let topic = join(seq![app, "notify"@, "event"@, "database"@, model, device], seq!['/']);
            let routes = with_static_routes(m, h);
            &&& routable(topic)
            &&& routes.contains_key(route_key(topic))
            &&& routes[route_key(topic)] == h.realtime_set
        }),
{
    reveal_strlit("event");
    reveal_strlit("database");
    reveal_strlit("notify");
    reveal_strlit("+");
    reveal_strlit("+/notify/event/database/+/+");
    reveal_strlit("+/get/request/database/realtime");
    let middle = seq!["notify"@, "event"@, "database"@];
    assert(pieces_free_of(middle, '/')) by {
        assert forall|i: int| 0 <= i < middle.len() implies free_of(#[trigger] middle[i], '/') by {
            assert(middle[i] == "notify"@ || middle[i] == "event"@ || middle[i] == "database"@);
        }
    }
    lemma_notify_route(app, middle, model, device);
    let v = seq![app] + middle + seq![model, device];
    assert(v =~= seq![app, "notify"@, "event"@, "database"@, model, device]);
    assert forall|i: int| 0 <= i < v.len() implies free_of(#[trigger] v[i], '/') by {
        if 0 < i <= middle.len() {
            assert(v[i] == middle[i - 1]);
        }
    }
    lemma_split_join(v, '/');
    let key = join(seq!["+"@] + middle + seq!["+"@, "+"@], seq!['/']);
    assert(key =~= "+/notify/event/database/+/+"@) by {
        reveal_with_fuel(join, 7);
        assert(seq!["+"@] + middle + seq!["+"@, "+"@] =~= seq!["+"@, "notify"@, "event"@, "database"@, "+"@, "+"@]);
    }
}

/// The callback registered for a pattern is the one found for every topic
/// routed to that pattern; registering again under the pattern (as
/// `update_callback` does) makes the new one found, and deleting the pattern
/// leaves such a topic without a callback.
pub proof fn lemma_register_then_route<F>(m: Map<Seq<char>, F>, topic: Seq<char>, f: F, g: F)
    ensures
        m.insert(route_key(topic), f).contains_key(route_key(topic)),
        m.insert(route_key(topic), f)[route_key(topic)] == f,
        m.insert(route_key(topic), f).insert(route_key(topic), g)[route_key(topic)] == g,
        !m.insert(route_key(topic), f).remove(route_key(topic)).contains_key(route_key(topic)),
{
}

/// The static routes in the order they are registered: each topic filter,
/// as its `/`-separated segments (`+` standing for any one segment), with
/// its handler.
pub open spec fn static_route_table<F>(h: StaticHandlers<F>) -> Seq<(Seq<Seq<char>>, F)> {
    seq![
        (seq!["+"@, "get"@, "request"@, "database"@, "version"@], h.version),
        (seq!["+"@, "set"@, "request"@, "database"@, "model"@], h.model_set),
        (seq!["+"@, "get"@, "request"@, "database"@, "model"@], h.model_get),
        (seq!["+"@, "get"@, "request"@, "database"@, "modelschema"@], h.model_schema),
        (seq!["+"@, "action"@, "request"@, "database"@, "deletemodel"@], h.model_delete),
        (seq!["+"@, "set"@, "request"@, "database"@, "register"@], h.device_register),
        (seq!["+"@, "get"@, "request"@, "database"@, "register"@], h.device_register_get),
        (seq!["+"@, "get"@, "request"@, "database"@, "guid"@], h.device_guid_get),
        (seq!["+"@, "action"@, "request"@, "database"@, "unregister"@], h.device_cancel_register),
        (seq!["+"@, "notify"@, "event"@, "database"@, "+"@, "+"@], h.realtime_set),
        (seq!["+"@, "get"@, "request"@, "database"@, "realtime"@], h.realtime_get),
    ]
}

/// A topic matches a filter: it has as many segments, and each segment
/// equals the filter's, where that is not `+`.
pub open spec fn topic_matches(topic: Seq<char>, filter: Seq<Seq<char>>) -> bool {
    let t = split_on(topic, '/');
    &&& t.len() == filter.len()
    &&& forall|j: int| 0 <= j < filter.len() ==> filter[j] == "+"@ || #[trigger] t[j] == filter[j]
}

/// A filter the route table can serve: `+` for the application, a literal
/// second segment, and `+` elsewhere exactly in the last two segments of a
/// `notify` filter; no segment holds `/`.
pub open spec fn filter_shaped(f: Seq<Seq<char>>) -> bool {
    &&& f.len() >= 2
    &&& f[0] == "+"@
    &&& f[1] != "+"@
    &&& forall|j: int| 1 <= j < f.len() ==> (#[trigger] f[j] == "+"@ <==> (f[1] == "notify"@ && j >= f.len() - 2))
    &&& pieces_free_of(f, '/')
}

/// A topic that matches a served filter is looked up under that filter's text.
proof fn lemma_filter_route(topic: Seq<char>, f: Seq<Seq<char>>)
    requires
        filter_shaped(f),
        topic_matches(topic, f),
    ensures
        routable(topic),
        route_key(topic) == join(f, seq!['/']),
{
    reveal_strlit("+");
    assert("+"@ =~= seq!['+']);
    let t = split_on(topic, '/');
    assert(f[1] != "+"@);
    assert(t[1] == f[1]);
    let mapped = Seq::new(
        t.len(),
        |i: int|
            if i == 0 || (t[1] == "notify"@ && i >= t.len() - 2) {
                seq!['+']
            } else {
                t[i]
            },
    );
    assert forall|j: int| 0 <= j < t.len() implies mapped[j] == f[j] by {
        if j > 0 {
            if f[j] != "+"@ {
                assert(t[j] == f[j]);
            }
        }
    }
    assert(mapped =~= f);
}

/// The text of the `i`-th static filter, as it is registered.
pub open spec fn static_filter_text(i: int) -> Seq<char> {
    if i == 0 {
        "+/get/request/database/version"@
    } else if i == 1 {
        "+/set/request/database/model"@
    } else if i == 2 {
        "+/get/request/database/model"@
    } else if i == 3 {
        "+/get/request/database/modelschema"@
    } else if i == 4 {
        "+/action/request/database/deletemodel"@
    } else if i == 5 {
        "+/set/request/database/register"@
    } else if i == 6 {
        "+/get/request/database/register"@
    } else if i == 7 {
        "+/get/request/database/guid"@
    } else if i == 8 {
        "+/action/request/database/unregister"@
    } else if i == 9 {
        "+/notify/event/database/+/+"@
    } else {
        "+/get/request/database/realtime"@
    }
}

/// The segments of the static filters hold no `/`.
proof fn lemma_segments_free()
    ensures
        free_of("+"@, '/'),
        free_of("get"@, '/'),
        free_of("set"@, '/'),
        free_of("action"@, '/'),
        free_of("notify"@, '/'),
        free_of("request"@, '/'),
        free_of("event"@, '/'),
        free_of("database"@, '/'),
        free_of("version"@, '/'),
        free_of("model"@, '/'),
        free_of("modelschema"@, '/'),
        free_of("deletemodel"@, '/'),
        free_of("register"@, '/'),
        free_of("guid"@, '/'),
        free_of("unregister"@, '/'),
        free_of("realtime"@, '/'),
{
    reveal_strlit("+");
    reveal_strlit("get");
    reveal_strlit("set");
    reveal_strlit("action");
    reveal_strlit("notify");
    reveal_strlit("request");
    reveal_strlit("event");
    reveal_strlit("database");
    reveal_strlit("version");
    reveal_strlit("model");
    reveal_strlit("modelschema");
    reveal_strlit("deletemodel");
    reveal_strlit("register");
    reveal_strlit("guid");
    reveal_strlit("unregister");
    reveal_strlit("realtime");
}

/// Each static filter is served by the route table, and its segments joined
/// by `/` are the text it is registered under.
proof fn lemma_static_entry<F>(h: StaticHandlers<F>, i: int)
    requires
        0 <= i < 11,
    ensures
        filter_shaped(static_route_table(h)[i].0),
        join(static_route_table(h)[i].0, seq!['/']) == static_filter_text(i),
{
    lemma_segments_free();
    reveal_strlit("+");
    reveal_strlit("get");
    reveal_strlit("set");
    reveal_strlit("action");
    reveal_strlit("notify");
    reveal_strlit("request");
    reveal_strlit("event");
    reveal_strlit("database");
    reveal_strlit("version");
    reveal_strlit("model");
    reveal_strlit("modelschema");
    reveal_strlit("deletemodel");
    reveal_strlit("register");
    reveal_strlit("guid");
    reveal_strlit("unregister");
    reveal_strlit("realtime");
    reveal_strlit("+/get/request/database/version");
    reveal_strlit("+/set/request/database/model");
    reveal_strlit("+/get/request/database/model");
    reveal_strlit("+/get/request/database/modelschema");
    reveal_strlit("+/action/request/database/deletemodel");
    reveal_strlit("+/set/request/database/register");
    reveal_strlit("+/get/request/database/register");
    reveal_strlit("+/get/request/database/guid");
    reveal_strlit("+/action/request/database/unregister");
    reveal_strlit("+/notify/event/database/+/+");
    reveal_strlit("+/get/request/database/realtime");
    let f = static_route_table(h)[i].0;
    assert(f[0] == "+"@);
    assert(f[1] != "+"@) by {
        assert(f[1].len() != "+"@.len());
    }
    assert("action"@[0] != "notify"@[0]);
    assert forall|j: int| 1 <= j < f.len() implies (#[trigger] f[j] == "+"@ <==> (f[1] == "notify"@ && j >= f.len() - 2)) by {
        if f[j] != "+"@ {
            if f[1] == "notify"@ {
                assert(i == 9);
            }
        }
        if f[j] == "+"@ {
            assert(f[j].len() == 1);
        }
    }
    assert(pieces_free_of(f, '/'));
    assert(join(f, seq!['/']) =~= static_filter_text(i)) by {
        reveal_with_fuel(join, 7);
    }
}

/// Registering the static handlers puts each filter's handler under that
/// filter's text.
proof fn lemma_static_lookup<F>(m: Map<Seq<char>, F>, h: StaticHandlers<F>, i: int)
    requires
        0 <= i < 11,
    ensures
        with_static_routes(m, h).contains_key(static_filter_text(i)),
        with_static_routes(m, h)[static_filter_text(i)] == static_route_table(h)[i].1,
{
    reveal_strlit("+/get/request/database/version");
    reveal_strlit("+/set/request/database/model");
    reveal_strlit("+/get/request/database/model");
    reveal_strlit("+/get/request/database/modelschema");
    reveal_strlit("+/action/request/database/deletemodel");
    reveal_strlit("+/set/request/database/register");
    reveal_strlit("+/get/request/database/register");
    reveal_strlit("+/get/request/database/guid");
    reveal_strlit("+/action/request/database/unregister");
    reveal_strlit("+/notify/event/database/+/+");
    reveal_strlit("+/get/request/database/realtime");
    assert(static_filter_text(0).len() == 30);
    assert(static_filter_text(1).len() == 28);
    assert(static_filter_text(2).len() == 28);
    assert(static_filter_text(3).len() == 34);
    assert(static_filter_text(4).len() == 37);
    assert(static_filter_text(5).len() == 31);
    assert(static_filter_text(6).len() == 31);
    assert(static_filter_text(7).len() == 27);
    assert(static_filter_text(8).len() == 36);
    assert(static_filter_text(9).len() == 27);
    assert(static_filter_text(10).len() == 31);
    assert(static_filter_text(1)[2] != static_filter_text(2)[2]);
    assert(static_filter_text(5)[2] != static_filter_text(6)[2]);
    assert(static_filter_text(5)[2] != static_filter_text(10)[2]);
    assert(static_filter_text(6)[25] != static_filter_text(10)[25]);
    assert(static_filter_text(7)[2] != static_filter_text(9)[2]);
    if i == 0 {
    } else if i == 1 {
    } else if i == 2 {
    } else if i == 3 {
    } else if i == 4 {
    } else if i == 5 {
    } else if i == 6 {
    } else if i == 7 {
    } else if i == 8 {
    } else if i == 9 {
    } else {
    }
}

/// Once the static handlers are registered, a message on any topic that
/// matches one of the static filters (`+` matching any one segment) is
/// looked up under that filter and finds the filter's handler.
pub proof fn lemma_static_dispatch<F>(m: Map<Seq<char>, F>, h: StaticHandlers<F>, topic: Seq<char>, i: int)
    requires
        0 <= i < 11,
        topic_matches(topic, static_route_table(h)[i].0),
    ensures
        routable(topic),
        route_key(topic) == static_filter_text(i),
        with_static_routes(m, h).contains_key(route_key(topic)),
        with_static_routes(m, h)[route_key(topic)] == static_route_table(h)[i].1,
{
    lemma_static_entry(h, i);
    lemma_filter_route(topic, static_route_table(h)[i].0);
    lemma_static_lookup(m, h, i);
}

/// Every callback in the table accepts this topic and payload.
pub open spec fn all_accept<F: Fn(&str, &str)>(m: Map<Seq<char>, F>, topic: &str, payload: &str) -> bool {
    forall|k: Seq<char>| m.contains_key(k) ==> call_requires(#[trigger] m[k], (topic, payload))
}

impl<F: Fn(&str, &str)> Register<F> {
    /// An empty route table.
    pub fn new() -> (r: Register<F>)
        ensures
            r@ == Map::<Seq<char>, F>::empty(),
    {
        Register { callbacks: StringHashMap::new() }
    }

    /// Call the callback registered for the topic's pattern with the topic and
    /// the payload; tells whether there was one (and it was called).
    pub fn deal(&mut self, topic: &str, payload: &str) -> (found: bool)
        requires
            routable(topic@),
            all_accept(old(self)@, topic, payload),
        ensures
            final(self)@ == old(self)@,
            found == old(self)@.contains_key(route_key(topic@)),
            found ==> call_ensures(old(self)@[route_key(topic@)], (topic, payload), ()),
    {
        let traned = route_pattern(topic);
        match self.callbacks.get(traned.as_str()) {
            None => false,
            Some(func) => {
                func(topic, payload);
                true
            },
        }
    }

    /// Register `match_func` under `match_str`, replacing any earlier callback.
    pub fn add_callback(&mut self, match_str: &str, match_func: F)
        ensures
            final(self)@ == old(self)@.insert(match_str@, match_func),
    {
        self.callbacks.insert(owned(match_str), match_func);
    }

    /// Remove the callback registered under `match_str`, if any.
    pub fn delete_callback(&mut self, match_str: &str)
        ensures
            final(self)@ == old(self)@.remove(match_str@),
    {
        self.callbacks.remove(match_str);
    }

    /// Register `match_func` under `match_str`, replacing any earlier callback.
    pub fn update_callback(&mut self, match_str: &str, match_func: F)
        ensures
            final(self)@ == old(self)@.insert(match_str@, match_func),
    {
        self.callbacks.insert(owned(match_str), match_func);
    }
}

/// Hand a received message to the route table, which calls the callback of
/// the topic's pattern if there is one; always reports that it was taken.
pub fn dispatch_message<F: Fn(&str, &str)>(register: &mut Register<F>, topic: &str, payload: &str) -> (r: bool)
    requires
        routable(topic@),
        all_accept(old(register)@, topic, payload),
    ensures
        final(register)@ == old(register)@,
        r,
        old(register)@.contains_key(route_key(topic@)) ==> call_ensures(
            old(register)@[route_key(topic@)],
            (topic, payload),
            (),
        ),
{
    register.deal(topic, payload);
    true
}

/// Register a callback for a topic pattern in the route table.
pub fn register_func<F: Fn(&str, &str)>(register: &mut Register<F>, match_str: &str, match_func: F)
    ensures
        final(register)@ == old(register)@.insert(match_str@, match_func),
{
    register.add_callback(match_str, match_func);
}

/// Register the static handlers under their topic patterns.
pub fn register_static_func<F: Fn(&str, &str)>(register: &mut Register<F>, handlers: StaticHandlers<F>)
    ensures
        final(register)@ == with_static_routes(old(register)@, handlers),
{
    let ghost h = handlers;
    let StaticHandlers {
        version,
        model_set,
        model_get,
        model_schema,
        model_delete,
        device_register,
        device_register_get,
        device_guid_get,
        device_cancel_register,
        realtime_set,
        realtime_get,
    } = handlers;
    register_func(register, "+/get/request/database/version", version);
    register_func(register, "+/set/request/database/model", model_set);
    register_func(register, "+/get/request/database/model", model_get);
    register_func(register, "+/get/request/database/modelschema", model_schema);
    register_func(register, "+/action/request/database/deletemodel", model_delete);
    register_func(register, "+/set/request/database/register", device_register);
    register_func(register, "+/get/request/database/register", device_register_get);
    register_func(register, "+/get/request/database/guid", device_guid_get);
    register_func(register, "+/action/request/database/unregister", device_cancel_register);
    register_func(register, "+/notify/event/database/+/+", realtime_set);
    register_func(register, "+/get/request/database/realtime", realtime_get);
}

} // verus!
