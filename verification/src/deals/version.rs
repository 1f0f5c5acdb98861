//! The version query: answered with the protocol version and the oldest
//! compatible one.

use vstd::prelude::*;
use crate::common::{gen_topic, get_text_or_empty, response_topic, text_or_empty};
use crate::json::{entry_views, json_parse, json_quoted, parse_json, Json, JsonEntry, JsonView};
use crate::protocol::{text_entry, Pairs, Response, ResponseView, Step, StepView};

verus! {

broadcast use vstd::string::group_string_axioms;

/// `{"version": "2.1", "Compatible": "1.0"}`.
pub open spec fn version_message() -> Pairs {
    seq![("version"@, json_quoted("2.1"@)), ("Compatible"@, json_quoted("1.0"@))]
}

/// The answer to a version query whose payload parsed to `request` (or did
/// not parse): nothing for an unparsable payload or one without a non-empty
/// `token` string, else the version message to the reply topic.
pub open spec fn version_answer_of(topic: Seq<char>, request: Option<JsonView>) -> StepView {
    match request {
        None => StepView::Quit,
        Some(req) => {
            let token = text_or_empty(req, "token"@);
            if token.len() == 0 {
                StepView::Quit
            } else {
                StepView::Respond(
                    ResponseView { topic: response_topic(topic), token, message: version_message() },
                )
            }
        },
    }
}

/// The answer to a version query with the given topic and payload.
pub open spec fn version_reply(topic: Seq<char>, payload: Seq<char>) -> StepView {
    version_answer_of(topic, json_parse(payload))
}

/// The answer to a version query, given what its payload parsed to.
pub fn version_answer(topic: &str, request: Option<Json>) -> (r: Step)
    ensures
        r@ == version_answer_of(
            topic@,
            match request {
                Some(j) => Some(j@),
                None => None,
            },
        ),
{
    match request {
        None => Step::Quit,
        Some(req) => {
            let token = get_text_or_empty("token", &req);
            if token.as_str().is_empty() {
                return Step::Quit;
            }
            let mut message: Vec<JsonEntry> = Vec::new();
            message.push(text_entry("version", "2.1"));
            message.push(text_entry("Compatible", "1.0"));
            proof {
                assert(entry_views(message@) =~= version_message());
            }
            Step::Respond(Response { topic: gen_topic(topic), token, message })
        },
    }
}

/// Answer a version query: parse the payload, then reply with the version.
pub fn response_version(topic: &str, payload: &str) -> (r: Step)
    ensures
        r@ == version_reply(topic@, payload@),
{
    let parsed = parse_json(payload);
    version_answer(topic, parsed)
}

} // verus!
