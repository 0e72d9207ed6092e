//! The archive into which the records of the test bench are exported.

use super::ModelTestRecord;
use crate::clock;
use crate::http;
use crate::json;
use crate::json::{Json, JsonView};
use vstd::prelude::*;

verus! {

/// An object without fields.
pub open spec fn nothing() -> JsonView {
    JsonView::Object(Seq::empty())
}

/// A list without items.
pub open spec fn no_items() -> JsonView {
    JsonView::Array(Seq::empty())
}

/// An archive of entries.
pub open spec fn document(entries: Seq<JsonView>) -> JsonView {
    let creator = JsonView::Object(
        seq![
            ("name"@, JsonView::Text("codex-switch"@)),
            ("version"@, JsonView::Text(http::PACKAGE_VERSION@)),
        ],
    );
    let log = JsonView::Object(
        seq![
            ("version"@, JsonView::Text("1.2"@)),
            ("creator"@, creator),
            ("entries"@, JsonView::Array(entries)),
        ],
    );
    JsonView::Object(seq![("log"@, log)])
}

/// An archive of entries.
pub fn har_document(entries: Vec<Json>) -> (r: Json)
    ensures
        r.view() == document(entries@.map_values(|v: Json| v.view())),
{
    let ghost views = entries@.map_values(|v: Json| v.view());
    let creator: Json = json::object(
        vec![
            json::entry("name", json::text_value("codex-switch")),
            json::entry("version", json::text_value(http::PACKAGE_VERSION)),
        ],
    );
    proof {
        assert(creator.view()->Object_0 =~= seq![
            ("name"@, JsonView::Text("codex-switch"@)),
            ("version"@, JsonView::Text(http::PACKAGE_VERSION@)),
        ]);
    }
    let ghost creator_view = creator.view();
    let log: Json = json::object(
        vec![
            json::entry("version", json::text_value("1.2")),
            json::entry("creator", creator),
            json::entry("entries", json::array(entries)),
        ],
    );
    proof {
        assert(log.view()->Object_0 =~= seq![
            ("version"@, JsonView::Text("1.2"@)),
            ("creator"@, creator_view),
            ("entries"@, JsonView::Array(views)),
        ]);
    }
    let ghost log_view = log.view();
    let r: Json = json::object(vec![json::entry("log", log)]);
    proof {
        assert(r.view()->Object_0 =~= seq![("log"@, log_view)]);
    }
    r
}

/// What an archive says of a request of which nothing but the address is known.
pub open spec fn bare_request(endpoint: Seq<char>) -> JsonView {
    JsonView::Object(
        seq![
            ("method"@, JsonView::Text("POST"@)),
            ("url"@, JsonView::Text(endpoint)),
            ("httpVersion"@, JsonView::Text("HTTP/1.1"@)),
            ("headers"@, no_items()),
            ("queryString"@, no_items()),
            ("cookies"@, no_items()),
            ("headersSize"@, json::int_json(-1)),
            ("bodySize"@, json::int_json(-1)),
        ],
    )
}

fn no_items_value() -> (r: Json)
    ensures
        r.view() == no_items(),
{
    let r: Json = Json::Array(Vec::new());
    proof {
        assert(r.view()->Array_0 =~= Seq::empty());
    }
    r
}

fn nothing_value() -> (r: Json)
    ensures
        r.view() == nothing(),
{
    let r: Json = Json::Object(Vec::new());
    proof {
        assert(r.view()->Object_0 =~= Seq::empty());
    }
    r
}

fn bare_request_value(endpoint: &str) -> (r: Json)
    ensures
        r.view() == bare_request(endpoint@),
{
    let r: Json = json::object(
        vec![
            json::entry("method", json::text_value("POST")),
            json::entry("url", json::text_value(endpoint)),
            json::entry("httpVersion", json::text_value("HTTP/1.1")),
            json::entry("headers", no_items_value()),
            json::entry("queryString", no_items_value()),
            json::entry("cookies", no_items_value()),
            json::entry("headersSize", json::int_value(-1)),
            json::entry("bodySize", json::int_value(-1)),
        ],
    );
    proof {
        assert(r.view()->Object_0 =~= bare_request(endpoint@)->Object_0);
    }
    r
}

/// What an archive says of an answer of which nothing but the status is known.
pub open spec fn bare_response(status: int) -> JsonView {
    let content = JsonView::Object(
        seq![("size"@, json::int_json(-1)), ("mimeType"@, JsonView::Text(""@))],
    );
    JsonView::Object(
        seq![
            ("status"@, json::int_json(status)),
            ("statusText"@, JsonView::Text(http::reason_of(status))),
            ("httpVersion"@, JsonView::Text("HTTP/1.1"@)),
            ("headers"@, no_items()),
            ("content"@, content),
            ("redirectURL"@, JsonView::Text(""@)),
            ("headersSize"@, json::int_json(-1)),
            ("bodySize"@, json::int_json(-1)),
        ],
    )
}

fn bare_response_value(status: i64) -> (r: Json)
    ensures
        r.view() == bare_response(status as int),
{
    let content: Json = json::object(
        vec![
            json::entry("size", json::int_value(-1)),
            json::entry("mimeType", json::text_value("")),
        ],
    );
    proof {
        assert(content.view()->Object_0 =~= seq![
            ("size"@, json::int_json(-1)),
            ("mimeType"@, JsonView::Text(""@)),
        ]);
    }
    let reason: String = http::reason_text(status);
    let r: Json = json::object(
        vec![
            json::entry("status", json::int_value(status)),
            json::entry("statusText", json::text_value(reason.as_str())),
            json::entry("httpVersion", json::text_value("HTTP/1.1")),
            json::entry("headers", no_items_value()),
            json::entry("content", content),
            json::entry("redirectURL", json::text_value("")),
            json::entry("headersSize", json::int_value(-1)),
            json::entry("bodySize", json::int_value(-1)),
        ],
    );
    proof {
        assert(r.view()->Object_0 =~= bare_response(status as int)->Object_0);
    }
    r
}

/// What an archive says of a request whose exchange was not recorded.
pub open spec fn bare_entry(record: &ModelTestRecord, started: Seq<char>) -> Seq<
    (Seq<char>, JsonView),
> {
    let timings = JsonView::Object(
        seq![
            ("send"@, json::int_json(0)),
            ("wait"@, json::int_json(record.duration_ms as int)),
            ("receive"@, json::int_json(0)),
        ],
    );
    seq![
        ("startedDateTime"@, JsonView::Text(started)),
        ("time"@, json::int_json(record.duration_ms as int)),
        ("request"@, bare_request(record.endpoint@)),
        ("response"@, bare_response(record.status as int)),
        ("cache"@, nothing()),
        ("timings"@, timings),
    ]
}

fn bare_fields(record: &ModelTestRecord, started: &str) -> (r: Vec<(String, Json)>)
    ensures
        json::fields_of(r@) == bare_entry(record, started@),
{
    let timings: Json = json::object(
        vec![
            json::entry("send", json::int_value(0)),
            json::entry("wait", json::int_value(record.duration_ms)),
            json::entry("receive", json::int_value(0)),
        ],
    );
    proof {
        assert(timings.view()->Object_0 =~= seq![
            ("send"@, json::int_json(0)),
            ("wait"@, json::int_json(record.duration_ms as int)),
            ("receive"@, json::int_json(0)),
        ]);
    }
    let r: Vec<(String, Json)> = vec![
        json::entry("startedDateTime", json::text_value(started)),
        json::entry("time", json::int_value(record.duration_ms)),
        json::entry("request", bare_request_value(record.endpoint.as_str())),
        json::entry("response", bare_response_value(record.status)),
        json::entry("cache", nothing_value()),
        json::entry("timings", timings),
    ];
    proof {
        assert(json::fields_of(r@) =~= bare_entry(record, started@));
    }
    r
}

/// Fields with one more, where there is a value for it.
pub open spec fn with_optional(
    fields: Seq<(Seq<char>, JsonView)>,
    key: Seq<char>,
    value: Option<JsonView>,
) -> Seq<(Seq<char>, JsonView)> {
    match value {
        Some(v) => json::with_field(fields, key, v),
        None => fields,
    }
}

fn set_optional(fields: &mut Vec<(String, Json)>, key: &str, value: Option<Json>)
    ensures
        json::fields_of(final(fields)@) == with_optional(
            json::fields_of(old(fields)@),
            key@,
            super::exchange(value),
        ),
{
    if let Some(value) = value {
        proof {
            assert(Json::Object(*fields).view()->Object_0 =~= json::fields_of(fields@));
        }
        json::set_field(fields, key, value);
        proof {
            assert(Json::Object(*fields).view()->Object_0 =~= json::fields_of(fields@));
        }
    }
}

/// What an archive says of a record beside the exchange: the upstream, the
/// model, the first token, the tokens, the cost and the error, each where there
/// is one.
pub open spec fn noted(
    fields: Seq<(Seq<char>, JsonView)>,
    record: &ModelTestRecord,
    cost: Option<JsonView>,
) -> Seq<(Seq<char>, JsonView)> {
    let upstream = match record.upstream_name {
        Some(name) => Some(JsonView::Text(name@)),
        None => None,
    };
    let first_token = match record.first_token_ms {
        Some(ms) => Some(json::int_json(ms as int)),
        None => None,
    };
    let error = match record.error {
        Some(message) => if message@.len() > 0 {
            Some(JsonView::Text(message@))
        } else {
            None
        },
        None => None,
    };
    let a = with_optional(fields, "_upstream"@, upstream);
    let b = json::with_field(a, "_model"@, JsonView::Text(record.model@));
    let c = with_optional(b, "_first_token_ms"@, first_token);
    let d = json::with_field(c, "_total_tokens"@, json::int_json(record.total_tokens as int));
    let e = with_optional(d, "_estimated_cost_usd"@, cost);
    with_optional(e, "_error"@, error)
}

fn note(fields: &mut Vec<(String, Json)>, record: &ModelTestRecord, cost: Option<Json>)
    ensures
        json::fields_of(final(fields)@) == noted(
            json::fields_of(old(fields)@),
            record,
            super::exchange(cost),
        ),
{
    let upstream: Option<Json> = match &record.upstream_name {
        Some(name) => Some(json::text_value(name.as_str())),
        None => None,
    };
    let first_token: Option<Json> = match record.first_token_ms {
        Some(ms) => Some(json::int_value(ms)),
        None => None,
    };
    let error: Option<Json> = match &record.error {
        Some(message) => if crate::text::is_empty(message.as_str()) {
            None
        } else {
            Some(json::text_value(message.as_str()))
        },
        None => None,
    };
    set_optional(fields, "_upstream", upstream);
    set_optional(fields, "_model", Some(json::text_value(record.model.as_str())));
    set_optional(fields, "_first_token_ms", first_token);
    set_optional(fields, "_total_tokens", Some(json::int_value(record.total_tokens)));
    set_optional(fields, "_estimated_cost_usd", cost);
    set_optional(fields, "_error", error);
}

/// The entry of a record: its exchange where that was recorded, else what is
/// known of it, with the moment at which it ended in words.
pub open spec fn entry_of(
    record: &ModelTestRecord,
    started: Seq<char>,
    cost: Option<JsonView>,
) -> JsonView {
    let fields = match record.raw {
        Some(raw) => raw.view()->Object_0,
        None => bare_entry(record, started),
    };
    JsonView::Object(noted(fields, record, cost))
}

/// The entry of a record, the moment at which it ended and its cost being
/// written out.
pub fn entry_with(record: &ModelTestRecord, started: &str, cost: Option<Json>) -> (r: Json)
    requires
        record.raw matches Some(raw) ==> raw.view() is Object,
    ensures
        r.view() == entry_of(record, started@, super::exchange(cost)),
{
    let mut fields: Vec<(String, Json)> = match &record.raw {
        Some(raw) => match raw.copy() {
            Json::Object(fields) => {
                proof {
                    assert(Json::Object(fields).view()->Object_0 =~= json::fields_of(fields@));
                }
                fields
            },
            _ => {
                assert(false);
                Vec::new()
            },
        },
        None => bare_fields(record, started),
    };
    note(&mut fields, record, cost);
    json::object(fields)
}

/// What an archive says of a record's cost, where there is one.
pub open spec fn cost_of(record: &ModelTestRecord) -> Option<JsonView> {
    match record.estimated_cost_usd {
        Some(cost) => Some(json::double_json(cost)),
        None => None,
    }
}

/// The entry of a record: the moment at which it ended is written as the
/// machine's time zone shows it.
pub fn model_test_record_har_entry(record: &ModelTestRecord) -> (r: Json)
    requires
        record.estimated_cost_usd matches Some(cost) ==> cost.wf(),
        record.raw matches Some(raw) ==> raw.view() is Object,
        clock::in_calendar(record.finished_at.seconds),
        record.finished_at.nanos < 1_000_000_000,
    ensures
        exists|started: Seq<char>|
            clock::is_local_rfc3339(started, record.finished_at) && r.view()
                == #[trigger] entry_of(record, started, cost_of(record)),
{
    let started: String = clock::local_rfc3339(record.finished_at);
    let cost: Option<Json> = match record.estimated_cost_usd {
        Some(cost) => Some(json::double_value(cost)),
        None => None,
    };
    entry_with(record, started.as_str(), cost)
}

/// An entry names the model, the tokens and the cost of its record.
pub proof fn law_entry_names_its_record(
    record: &ModelTestRecord,
    started: Seq<char>,
    cost: Option<JsonView>,
)
    ensures
        json::string_field(entry_of(record, started, cost), "_model"@) == Some(record.model@),
        json::field(entry_of(record, started, cost), "_total_tokens"@) == Some(
            json::int_json(record.total_tokens as int),
        ),
        cost is Some ==> json::field(entry_of(record, started, cost), "_estimated_cost_usd"@)
            == cost,
{
    let fields = match record.raw {
        Some(raw) => raw.view()->Object_0,
        None => bare_entry(record, started),
    };
    let upstream = match record.upstream_name {
        Some(name) => Some(JsonView::Text(name@)),
        None => None,
    };
    let first_token = match record.first_token_ms {
        Some(ms) => Some(json::int_json(ms as int)),
        None => None,
    };
    let error = match record.error {
        Some(message) => if message@.len() > 0 {
            Some(JsonView::Text(message@))
        } else {
            None
        },
        None => None,
    };
    let a = with_optional(fields, "_upstream"@, upstream);
    let b = json::with_field(a, "_model"@, JsonView::Text(record.model@));
    let c = with_optional(b, "_first_token_ms"@, first_token);
    let d = json::with_field(c, "_total_tokens"@, json::int_json(record.total_tokens as int));
    let e = with_optional(d, "_estimated_cost_usd"@, cost);
    reveal_strlit("_model");
    reveal_strlit("_first_token_ms");
    reveal_strlit("_total_tokens");
    reveal_strlit("_estimated_cost_usd");
    reveal_strlit("_error");
    assert("_model"@[1] == 'm' && "_first_token_ms"@[1] == 'f' && "_total_tokens"@[1] == 't');
    assert("_estimated_cost_usd"@[1] == 'e' && "_error"@[1] == 'e');
    json::law_set_then_get(a, "_model"@, JsonView::Text(record.model@));
    lemma_optional_keeps(b, "_first_token_ms"@, first_token, "_model"@);
    lemma_optional_keeps(
        c,
        "_total_tokens"@,
        Some(json::int_json(record.total_tokens as int)),
        "_model"@,
    );
    lemma_optional_keeps(d, "_estimated_cost_usd"@, cost, "_model"@);
    lemma_optional_keeps(e, "_error"@, error, "_model"@);
    json::law_set_then_get(c, "_total_tokens"@, json::int_json(record.total_tokens as int));
    lemma_optional_keeps(d, "_estimated_cost_usd"@, cost, "_total_tokens"@);
    lemma_optional_keeps(e, "_error"@, error, "_total_tokens"@);
    if let Some(value) = cost {
        json::law_set_then_get(d, "_estimated_cost_usd"@, value);
        assert("_estimated_cost_usd"@.len() != "_error"@.len());
        lemma_optional_keeps(e, "_error"@, error, "_estimated_cost_usd"@);
    }
}

proof fn lemma_optional_keeps(
    fields: Seq<(Seq<char>, JsonView)>,
    key: Seq<char>,
    value: Option<JsonView>,
    other: Seq<char>,
)
    requires
        key != other,
    ensures
        json::field(JsonView::Object(with_optional(fields, key, value)), other) == json::field(
            JsonView::Object(fields),
            other,
        ),
{
    if let Some(v) = value {
        json::law_set_keeps_others(fields, key, v, other);
    }
}

/// An entry tells the error of its record where there is one that is not empty,
/// the upstream where it has a name, and the first token where one came.
pub proof fn law_entry_tells_upstream_token_and_error(
    record: &ModelTestRecord,
    started: Seq<char>,
    cost: Option<JsonView>,
)
    ensures
        record.error matches Some(message) ==> (message@.len() > 0 ==> json::string_field(
            entry_of(record, started, cost),
            "_error"@,
        ) == Some(message@)),
        record.upstream_name matches Some(name) ==> json::string_field(
            entry_of(record, started, cost),
            "_upstream"@,
        ) == Some(name@),
        record.first_token_ms matches Some(ms) ==> json::field(
            entry_of(record, started, cost),
            "_first_token_ms"@,
        ) == Some(json::int_json(ms as int)),
{
    let fields = match record.raw {
        Some(raw) => raw.view()->Object_0,
        None => bare_entry(record, started),
    };
    let upstream = match record.upstream_name {
        Some(name) => Some(JsonView::Text(name@)),
        None => None,
    };
    let first_token = match record.first_token_ms {
        Some(ms) => Some(json::int_json(ms as int)),
        None => None,
    };
    let error = match record.error {
        Some(message) => if message@.len() > 0 {
            Some(JsonView::Text(message@))
        } else {
            None
        },
        None => None,
    };
    let model = JsonView::Text(record.model@);
    let tokens = json::int_json(record.total_tokens as int);
    let a = with_optional(fields, "_upstream"@, upstream);
    let b = json::with_field(a, "_model"@, model);
    let c = with_optional(b, "_first_token_ms"@, first_token);
    let d = json::with_field(c, "_total_tokens"@, tokens);
    let e = with_optional(d, "_estimated_cost_usd"@, cost);
    reveal_strlit("_upstream");
    reveal_strlit("_model");
    reveal_strlit("_first_token_ms");
    reveal_strlit("_total_tokens");
    reveal_strlit("_estimated_cost_usd");
    reveal_strlit("_error");
    assert("_upstream"@[1] == 'u' && "_model"@[1] == 'm' && "_first_token_ms"@[1] == 'f');
    assert("_total_tokens"@[1] == 't' && "_estimated_cost_usd"@[1] == 'e' && "_error"@[1] == 'e');
    if let Some(value) = error {
        json::law_set_then_get(e, "_error"@, value);
    }
    if let Some(value) = upstream {
        json::law_set_then_get(fields, "_upstream"@, value);
        json::law_set_keeps_others(a, "_model"@, model, "_upstream"@);
        lemma_optional_keeps(b, "_first_token_ms"@, first_token, "_upstream"@);
        json::law_set_keeps_others(c, "_total_tokens"@, tokens, "_upstream"@);
        lemma_optional_keeps(d, "_estimated_cost_usd"@, cost, "_upstream"@);
        lemma_optional_keeps(e, "_error"@, error, "_upstream"@);
    }
    if let Some(value) = first_token {
        json::law_set_then_get(b, "_first_token_ms"@, value);
        json::law_set_keeps_others(c, "_total_tokens"@, tokens, "_first_token_ms"@);
        lemma_optional_keeps(d, "_estimated_cost_usd"@, cost, "_first_token_ms"@);
        lemma_optional_keeps(e, "_error"@, error, "_first_token_ms"@);
    }
}

} // verus!
