//! The request that keeps a cache alive, made from the request that filled it.

use crate::json;
use crate::json::{Json, JsonNumber, JsonView};
use crate::models::{TokenUsage, UpstreamCacheKeepaliveSettings, WireApi};
use crate::text;
use vstd::prelude::*;
use vstd::utf8;

verus! {

/// Whether a model keeps its caches for a day when asked to.
pub open spec fn supports_extended_retention(model: Seq<char>) -> bool {
    let name = text::trimmed(model);
    ||| "gpt-5"@.is_prefix_of(name)
    ||| name == "gpt-4.1"@
    ||| name == "openai/gpt-4.1"@
    ||| "openai/gpt-5"@.is_prefix_of(name)
}

/// Whether the model that a request names keeps its caches for a day when
/// asked to.
pub open spec fn names_retaining_model(v: JsonView) -> bool {
    match json::string_field(v, "model"@) {
        Some(model) => supports_extended_retention(model),
        None => false,
    }
}

/// The number one.
pub open spec fn one() -> JsonView {
    JsonView::Number { text: "1"@, integer: Some(1), bits: Some(4_607_182_418_800_017_408) }
}

/// The least reasoning effort, as an object.
pub open spec fn minimal_effort() -> JsonView {
    JsonView::Object(seq![("effort"@, JsonView::Text("minimal"@))])
}

/// The fields with another value under `key`, where the key is there.
pub open spec fn replaced(
    fields: Seq<(Seq<char>, JsonView)>,
    key: Seq<char>,
    value: JsonView,
) -> Seq<(Seq<char>, JsonView)> {
    if json::has_field(fields, key) {
        json::with_field(fields, key, value)
    } else {
        fields
    }
}

/// The fields of the request that keeps a cache alive: answered at once, not
/// stored, with one token of output and the least effort.
pub open spec fn keepalive_fields(
    fields: Seq<(Seq<char>, JsonView)>,
    wire_api: WireApi,
    extended: bool,
) -> Seq<(Seq<char>, JsonView)> {
    let plain = json::with_field(
        json::with_field(fields, "stream"@, JsonView::Bool(false)),
        "store"@,
        JsonView::Bool(false),
    );
    match wire_api {
        WireApi::Responses => {
            let limited = replaced(
                json::with_field(plain, "max_output_tokens"@, one()),
                "reasoning"@,
                minimal_effort(),
            );
            if extended {
                json::with_field(limited, "prompt_cache_retention"@, JsonView::Text("24h"@))
            } else {
                limited
            }
        },
        WireApi::ChatCompletions => replaced(
            json::with_field(plain, "max_tokens"@, one()),
            "reasoning_effort"@,
            JsonView::Text("minimal"@),
        ),
        WireApi::AnthropicMessages => json::with_field(plain, "max_tokens"@, one()),
    }
}

/// The body of the request that keeps a cache alive, or why there is none.
pub open spec fn keepalive_body_of(
    document: Result<JsonView, Seq<char>>,
    wire_api: WireApi,
    prefer_extended: bool,
) -> Result<Seq<u8>, Seq<char>> {
    match document {
        Err(message) => Err(message),
        Ok(JsonView::Object(fields)) => Ok(
            utf8::encode_utf8(
                json::json_text(
                    JsonView::Object(
                        keepalive_fields(
                            fields,
                            wire_api,
                            prefer_extended && names_retaining_model(JsonView::Object(fields)),
                        ),
                    ),
                ),
            ),
        ),
        Ok(_) => Err("request body is not a json object"@),
    }
}

/// Whether a model keeps its caches for a day when asked to.
pub fn model_supports_extended_retention(model: &str) -> (r: bool)
    ensures
        r == supports_extended_retention(model@),
{
    let name: String = text::trim(model);
    text::starts_with(name.as_str(), "gpt-5") || text::same(name.as_str(), "gpt-4.1") || text::same(
        name.as_str(),
        "openai/gpt-4.1",
    ) || text::starts_with(name.as_str(), "openai/gpt-5")
}

/// Whether the model that a request names keeps its caches for a day when
/// asked to.
pub fn should_use_extended_retention(value: &Json) -> (r: bool)
    ensures
        r == names_retaining_model(value.view()),
{
    match value.get_str("model") {
        Some(model) => model_supports_extended_retention(model),
        None => false,
    }
}

fn one_value() -> (r: Json)
    ensures
        r.view() == one(),
{
    Json::Number(
        JsonNumber {
            text: "1".to_string(),
            integer: Some(1),
            bits: Some(4_607_182_418_800_017_408),
        },
    )
}

fn minimal_effort_value() -> (r: Json)
    ensures
        r.view() == minimal_effort(),
{
    let mut fields: Vec<(String, Json)> = Vec::new();
    fields.push(("effort".to_string(), json::text_value("minimal")));
    let r = Json::Object(fields);
    assert(r.view()->Object_0 =~= minimal_effort()->Object_0);
    r
}

/// Sets a field that is there.
fn replace(fields: &mut Vec<(String, Json)>, key: &str, value: Json)
    ensures
        Json::Object(*final(fields)).view()->Object_0 == replaced(
            Json::Object(*old(fields)).view()->Object_0,
            key@,
            value.view(),
        ),
{
    if json::contains_field(fields, key) {
        json::set_field(fields, key, value);
    }
}

/// Turns the fields of a request into those of the request that keeps its
/// cache alive.
pub fn limit_output(fields: &mut Vec<(String, Json)>, wire_api: WireApi, extended: bool)
    ensures
        Json::Object(*final(fields)).view()->Object_0 == keepalive_fields(
            Json::Object(*old(fields)).view()->Object_0,
            wire_api,
            extended,
        ),
{
    json::set_field(fields, "stream", Json::Bool(false));
    json::set_field(fields, "store", Json::Bool(false));
    match wire_api {
        WireApi::Responses => {
            json::set_field(fields, "max_output_tokens", one_value());
            replace(fields, "reasoning", minimal_effort_value());
            if extended {
                json::set_field(fields, "prompt_cache_retention", json::text_value("24h"));
            }
        },
        WireApi::ChatCompletions => {
            json::set_field(fields, "max_tokens", one_value());
            replace(fields, "reasoning_effort", json::text_value("minimal"));
        },
        WireApi::AnthropicMessages => {
            json::set_field(fields, "max_tokens", one_value());
        },
    }
}

/// The body of the request that keeps a cache alive, or why there is none: a
/// request that is no JSON, or no JSON object.
pub fn keepalive_body(
    body: &[u8],
    wire_api: WireApi,
    settings: &UpstreamCacheKeepaliveSettings,
) -> (r: Result<Vec<u8>, String>)
    ensures
        match (r, keepalive_body_of(
            json::json_of_bytes(body@),
            wire_api,
            settings.prefer_extended_retention,
        )) {
            (Ok(bytes), Ok(wanted)) => bytes@ == wanted,
            (Err(message), Err(wanted)) => message@ == wanted,
            _ => false,
        },
{
    match json::parse(body) {
        Err(message) => Err(message),
        Ok(value) => {
            let extended: bool = settings.prefer_extended_retention
                && should_use_extended_retention(&value);
            match value {
                Json::Object(fields) => {
                    let mut fields: Vec<(String, Json)> = fields;
                    limit_output(&mut fields, wire_api, extended);
                    let limited: String = json::to_text(&Json::Object(fields));
                    Ok(limited.as_str().as_bytes_vec())
                },
                _ => Err("request body is not a json object".to_string()),
            }
        },
    }
}

/// The usage of a keepalive with its total filled in.
pub fn normalized_keepalive_usage(usage: TokenUsage) -> (r: TokenUsage)
    requires
        usage.total_tokens == 0 ==> usage.sum_fits(),
    ensures
        r == usage.finished(),
{
    let mut usage: TokenUsage = usage;
    usage.finish();
    usage
}

/// A field set to a value reads as that value after setting another one.
proof fn lemma_still_set(
    fields: Seq<(Seq<char>, JsonView)>,
    key: Seq<char>,
    value: JsonView,
    other: Seq<char>,
    other_value: JsonView,
)
    requires
        json::field(JsonView::Object(fields), key) == Some(value),
        other != key,
    ensures
        json::field(JsonView::Object(json::with_field(fields, other, other_value)), key) == Some(
            value,
        ),
        json::field(JsonView::Object(replaced(fields, other, other_value)), key) == Some(value),
{
    json::law_set_keeps_others(fields, other, other_value, key);
}

/// Every keepalive request is answered at once, is not stored, and asks for
/// one token of output.
pub proof fn law_keepalive_is_cheap(
    fields: Seq<(Seq<char>, JsonView)>,
    wire_api: WireApi,
    extended: bool,
)
    ensures
        ({
            let request = JsonView::Object(keepalive_fields(fields, wire_api, extended));
            &&& json::field(request, "stream"@) == Some(JsonView::Bool(false))
            &&& json::field(request, "store"@) == Some(JsonView::Bool(false))
            &&& match wire_api {
                WireApi::Responses => json::field(request, "max_output_tokens"@) == Some(one()),
                _ => json::field(request, "max_tokens"@) == Some(one()),
            }
        }),
{
    reveal_strlit("stream");
    reveal_strlit("store");
    reveal_strlit("max_output_tokens");
    reveal_strlit("max_tokens");
    reveal_strlit("reasoning");
    reveal_strlit("reasoning_effort");
    reveal_strlit("prompt_cache_retention");
    let no = JsonView::Bool(false);
    let a = json::with_field(fields, "stream"@, no);
    json::law_set_then_get(fields, "stream"@, no);
    let b = json::with_field(a, "store"@, no);
    json::law_set_then_get(a, "store"@, no);
    assert("stream"@.len() != "store"@.len());
    lemma_still_set(a, "stream"@, no, "store"@, no);
    let limit = match wire_api {
        WireApi::Responses => "max_output_tokens"@,
        _ => "max_tokens"@,
    };
    assert(limit[0] == 'm');
    assert("stream"@[0] == 's' && "store"@[0] == 's');
    let c = json::with_field(b, limit, one());
    json::law_set_then_get(b, limit, one());
    lemma_still_set(b, "stream"@, no, limit, one());
    lemma_still_set(b, "store"@, no, limit, one());
    let (effort_key, effort) = match wire_api {
        WireApi::Responses => ("reasoning"@, minimal_effort()),
        _ => ("reasoning_effort"@, JsonView::Text("minimal"@)),
    };
    assert(effort_key[0] == 'r');
    lemma_still_set(c, "stream"@, no, effort_key, effort);
    lemma_still_set(c, "store"@, no, effort_key, effort);
    lemma_still_set(c, limit, one(), effort_key, effort);
    let d = replaced(c, effort_key, effort);
    let day = JsonView::Text("24h"@);
    assert("prompt_cache_retention"@[0] == 'p');
    lemma_still_set(d, "stream"@, no, "prompt_cache_retention"@, day);
    lemma_still_set(d, "store"@, no, "prompt_cache_retention"@, day);
    lemma_still_set(d, limit, one(), "prompt_cache_retention"@, day);
}

/// A keepalive request leaves the prompt as it was: every field that a
/// keepalive does not speak of keeps its value.
pub proof fn law_keepalive_keeps_prompt(
    fields: Seq<(Seq<char>, JsonView)>,
    wire_api: WireApi,
    extended: bool,
    key: Seq<char>,
)
    requires
        key != "stream"@,
        key != "store"@,
        key != "max_output_tokens"@,
        key != "max_tokens"@,
        key != "reasoning"@,
        key != "reasoning_effort"@,
        key != "prompt_cache_retention"@,
    ensures
        json::field(JsonView::Object(keepalive_fields(fields, wire_api, extended)), key)
            == json::field(JsonView::Object(fields), key),
{
    let no = JsonView::Bool(false);
    let a = json::with_field(fields, "stream"@, no);
    json::law_set_keeps_others(fields, "stream"@, no, key);
    let b = json::with_field(a, "store"@, no);
    json::law_set_keeps_others(a, "store"@, no, key);
    match wire_api {
        WireApi::Responses => {
            let c = json::with_field(b, "max_output_tokens"@, one());
            json::law_set_keeps_others(b, "max_output_tokens"@, one(), key);
            json::law_set_keeps_others(c, "reasoning"@, minimal_effort(), key);
            let d = replaced(c, "reasoning"@, minimal_effort());
            json::law_set_keeps_others(
                d,
                "prompt_cache_retention"@,
                JsonView::Text("24h"@),
                key,
            );
        },
        WireApi::ChatCompletions => {
            let c = json::with_field(b, "max_tokens"@, one());
            json::law_set_keeps_others(b, "max_tokens"@, one(), key);
            json::law_set_keeps_others(c, "reasoning_effort"@, JsonView::Text("minimal"@), key);
        },
        WireApi::AnthropicMessages => {
            json::law_set_keeps_others(b, "max_tokens"@, one(), key);
        },
    }
}

/// The request of a keepalive is the request that filled the cache, asked for
/// one token and no thought: each protocol is limited in its own field, an
/// effort that was asked for becomes the least one and none is added, and the
/// cache is asked to last a day only where that is wanted of a model that can.
pub proof fn law_keepalive_asks_for_one_token(
    fields: Seq<(Seq<char>, JsonView)>,
    wire_api: WireApi,
    extended: bool,
)
    ensures
        ({
            let before = JsonView::Object(fields);
            let after = JsonView::Object(keepalive_fields(fields, wire_api, extended));
            let limit = match wire_api {
                WireApi::Responses => "max_output_tokens"@,
                _ => "max_tokens"@,
            };
            let other = match wire_api {
                WireApi::Responses => "max_tokens"@,
                _ => "max_output_tokens"@,
            };
            &&& json::field(after, limit) is Some && json::field(after, limit)->0 is Number
            &&& json::field(after, limit)->0->integer == Some(1i64)
            &&& json::field(after, limit)->0->Number_text == "1"@
            &&& json::field(after, other) == json::field(before, other)
            &&& json::field(after, "reasoning"@) is Some <==> json::field(before, "reasoning"@)
                is Some
            &&& json::field(after, "reasoning_effort"@) is Some <==> json::field(
                before,
                "reasoning_effort"@,
            ) is Some
            &&& wire_api == WireApi::Responses && json::field(before, "reasoning"@) is Some
                ==> json::string_field(json::field(after, "reasoning"@)->0, "effort"@) == Some(
                "minimal"@,
            )
            &&& wire_api != WireApi::Responses ==> json::field(after, "reasoning"@) == json::field(
                before,
                "reasoning"@,
            )
            &&& wire_api == WireApi::ChatCompletions && json::field(before, "reasoning_effort"@)
                is Some ==> json::string_field(after, "reasoning_effort"@) == Some("minimal"@)
            &&& wire_api != WireApi::ChatCompletions ==> json::field(after, "reasoning_effort"@)
                == json::field(before, "reasoning_effort"@)
            &&& wire_api == WireApi::Responses && extended ==> json::string_field(
                after,
                "prompt_cache_retention"@,
            ) == Some("24h"@)
            &&& !(wire_api == WireApi::Responses && extended) ==> json::field(
                after,
                "prompt_cache_retention"@,
            ) == json::field(before, "prompt_cache_retention"@)
        }),
{
    reveal_strlit("stream");
    reveal_strlit("store");
    reveal_strlit("max_output_tokens");
    reveal_strlit("max_tokens");
    reveal_strlit("reasoning");
    reveal_strlit("reasoning_effort");
    reveal_strlit("prompt_cache_retention");
    let no = JsonView::Bool(false);
    let limit = match wire_api {
        WireApi::Responses => "max_output_tokens"@,
        _ => "max_tokens"@,
    };
    let other = match wire_api {
        WireApi::Responses => "max_tokens"@,
        _ => "max_output_tokens"@,
    };
    let day = JsonView::Text("24h"@);
    law_keepalive_is_cheap(fields, wire_api, extended);
    assert("reasoning"@.len() == 9 && "reasoning_effort"@.len() == 16);
    assert("stream"@.len() == 6 && "store"@.len() == 5 && "max_output_tokens"@.len() == 17);
    assert("max_tokens"@.len() == 10 && "prompt_cache_retention"@.len() == 22);
    lemma_one_field(fields, wire_api, extended, other);
    lemma_one_field(fields, wire_api, extended, "reasoning"@);
    lemma_one_field(fields, wire_api, extended, "reasoning_effort"@);
    lemma_one_field(fields, wire_api, extended, "prompt_cache_retention"@);
    let effort = seq![("effort"@, JsonView::Text("minimal"@))];
    assert(json::is_field(effort, "effort"@, 0));
    let k = choose|k: int| json::is_field(effort, "effort"@, k);
    json::lemma_field_unique(effort, "effort"@, 0, k);
}

/// What becomes of one field of a request.
proof fn lemma_one_field(
    fields: Seq<(Seq<char>, JsonView)>,
    wire_api: WireApi,
    extended: bool,
    key: Seq<char>,
)
    requires
        key != "stream"@,
        key != "store"@,
        match wire_api {
            WireApi::Responses => key != "max_output_tokens"@,
            _ => key != "max_tokens"@,
        },
    ensures
        ({
            let before = json::field(JsonView::Object(fields), key);
            let after = json::field(
                JsonView::Object(keepalive_fields(fields, wire_api, extended)),
                key,
            );
            after == if wire_api == WireApi::Responses && extended && key
                == "prompt_cache_retention"@ {
                Some(JsonView::Text("24h"@))
            } else if wire_api == WireApi::Responses && key == "reasoning"@ && before is Some {
                Some(minimal_effort())
            } else if wire_api == WireApi::ChatCompletions && key == "reasoning_effort"@
                && before is Some {
                Some(JsonView::Text("minimal"@))
            } else {
                before
            }
        }),
{
    reveal_strlit("reasoning");
    reveal_strlit("prompt_cache_retention");
    assert("reasoning"@.len() == 9 && "prompt_cache_retention"@.len() == 22);
    let no = JsonView::Bool(false);
    let a = json::with_field(fields, "stream"@, no);
    json::law_set_keeps_others(fields, "stream"@, no, key);
    let b = json::with_field(a, "store"@, no);
    json::law_set_keeps_others(a, "store"@, no, key);
    match wire_api {
        WireApi::Responses => {
            let c = json::with_field(b, "max_output_tokens"@, one());
            json::law_set_keeps_others(b, "max_output_tokens"@, one(), key);
            let d = replaced(c, "reasoning"@, minimal_effort());
            if key == "reasoning"@ {
                json::law_set_then_get(c, key, minimal_effort());
            } else {
                json::law_set_keeps_others(c, "reasoning"@, minimal_effort(), key);
            }
            let day = JsonView::Text("24h"@);
            if key == "prompt_cache_retention"@ {
                json::law_set_then_get(d, key, day);
            } else {
                json::law_set_keeps_others(d, "prompt_cache_retention"@, day, key);
            }
        },
        WireApi::ChatCompletions => {
            let c = json::with_field(b, "max_tokens"@, one());
            json::law_set_keeps_others(b, "max_tokens"@, one(), key);
            let least = JsonView::Text("minimal"@);
            if key == "reasoning_effort"@ {
                json::law_set_then_get(c, key, least);
            } else {
                json::law_set_keeps_others(c, "reasoning_effort"@, least, key);
            }
        },
        WireApi::AnthropicMessages => {
            json::law_set_keeps_others(b, "max_tokens"@, one(), key);
        },
    }
}

/// The body of a keepalive is the text of the changed request; a day is asked
/// for exactly where the settings prefer it and the request names a model that
/// keeps caches so long. What is no object has no keepalive.
pub proof fn law_keepalive_body_is_the_changed_request(
    document: Result<JsonView, Seq<char>>,
    wire_api: WireApi,
    prefer_extended: bool,
)
    ensures
        keepalive_body_of(document, wire_api, prefer_extended) is Ok <==> document is Ok
            && document->Ok_0 is Object,
        document is Err ==> keepalive_body_of(document, wire_api, prefer_extended)->Err_0
            == document->Err_0,
        document is Ok && document->Ok_0 is Object ==> exists|request: JsonView|
            {
                let before = document->Ok_0;
                let model = json::string_field(before, "model"@);
                let asked = json::field(request, "prompt_cache_retention"@);
                let lasting = wire_api == WireApi::Responses && prefer_extended && model is Some
                    && supports_extended_retention(model->0);
                &&& keepalive_body_of(document, wire_api, prefer_extended) == Ok::<
                    Seq<u8>,
                    Seq<char>,
                >(utf8::encode_utf8(#[trigger] json::json_text(request)))
                &&& json::field(request, "stream"@) == Some(JsonView::Bool(false))
                &&& json::field(request, "store"@) == Some(JsonView::Bool(false))
                &&& json::field(request, "messages"@) == json::field(before, "messages"@)
                &&& json::field(request, "input"@) == json::field(before, "input"@)
                &&& json::field(request, "model"@) == json::field(before, "model"@)
                &&& lasting ==> asked == Some(JsonView::Text("24h"@))
                &&& !lasting ==> asked == json::field(before, "prompt_cache_retention"@)
            },
{
    if document is Ok && document->Ok_0 is Object {
        let before = document->Ok_0;
        let fields = before->Object_0;
        let extended = prefer_extended && names_retaining_model(before);
        let request = JsonView::Object(keepalive_fields(fields, wire_api, extended));
        law_keepalive_is_cheap(fields, wire_api, extended);
        law_keepalive_asks_for_one_token(fields, wire_api, extended);
        reveal_strlit("stream");
        reveal_strlit("store");
        reveal_strlit("max_output_tokens");
        reveal_strlit("max_tokens");
        reveal_strlit("reasoning");
        reveal_strlit("reasoning_effort");
        reveal_strlit("prompt_cache_retention");
        reveal_strlit("messages");
        reveal_strlit("input");
        reveal_strlit("model");
        assert("messages"@.len() == 8 && "input"@[0] == 'i' && "model"@[1] == 'o');
        assert("messages"@[1] == 'e' && "max_tokens"@[1] == 'a' && "max_output_tokens"@[1] == 'a');
        assert("stream"@[0] == 's' && "store"@[0] == 's' && "reasoning"@[0] == 'r');
        assert("reasoning_effort"@[0] == 'r' && "prompt_cache_retention"@[0] == 'p');
        assert("messages"@[0] == 'm' && "model"@[0] == 'm' && "max_tokens"@[0] == 'm');
        law_keepalive_keeps_prompt(fields, wire_api, extended, "messages"@);
        law_keepalive_keeps_prompt(fields, wire_api, extended, "input"@);
        law_keepalive_keeps_prompt(fields, wire_api, extended, "model"@);
        assert(keepalive_body_of(document, wire_api, prefer_extended) == Ok::<Seq<u8>, Seq<char>>(
            utf8::encode_utf8(json::json_text(request)),
        ));
    }
}

/// A model keeps caches for a day exactly where its name starts with that of
/// the fifth generation, or is that of the release before it, each with or
/// without the maker in front; the space around it says nothing.
pub proof fn law_lasting_models(model: Seq<char>, rest: Seq<char>)
    ensures
        text::trimmed(model) == "gpt-5"@ + rest ==> supports_extended_retention(model),
        text::trimmed(model) == "openai/gpt-5"@ + rest ==> supports_extended_retention(model),
        text::trimmed(model) == "gpt-4.1"@ ==> supports_extended_retention(model),
        text::trimmed(model) == "openai/gpt-4.1"@ ==> supports_extended_retention(model),
        supports_extended_retention(model) == supports_extended_retention(text::trimmed(model)),
        supports_extended_retention(model) ==> "gpt-5"@.is_prefix_of(text::trimmed(model))
            || "openai/gpt-5"@.is_prefix_of(text::trimmed(model)) || text::trimmed(model)
            == "gpt-4.1"@ || text::trimmed(model) == "openai/gpt-4.1"@,
{
    text::law_trim_is_settled(model);
    let a = "gpt-5"@ + rest;
    assert("gpt-5"@ =~= a.subrange(0, "gpt-5"@.len() as int));
    let b = "openai/gpt-5"@ + rest;
    assert("openai/gpt-5"@ =~= b.subrange(0, "openai/gpt-5"@.len() as int));
}

} // verus!
