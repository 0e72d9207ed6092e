//! The key under which a conversation's session is kept.

use crate::json;
use crate::json::{Json, JsonView};
use crate::text;
use vstd::prelude::*;
use vstd::utf8;

verus! {

/// The lower-case hexadecimal text of the SHA-256 digest of some bytes.
pub uninterp spec fn sha256_hex(bytes: Seq<u8>) -> Seq<char>;

/// `sha2::Sha256::digest`, written by its lower-case hexadecimal `Display`: the
/// digest of the bytes, which depends on the bytes alone, in sixty-four
/// characters.
#[verifier::external_body]
pub(crate) fn digest_text(bytes: &[u8]) -> (r: String)
    ensures
        r@ == sha256_hex(bytes@),
        r@.len() == 64,
{
    format!("{:x}", <sha2::Sha256 as sha2::Digest>::digest(bytes))
}

/// The name of the conversation that a request belongs to: its cache key, or
/// its conversation, or its session, wherever in the document it stands.
pub open spec fn conversation_of(v: JsonView) -> Option<Seq<char>> {
    match json::found_string(v, "prompt_cache_key"@) {
        Some(s) => Some(s),
        None => match json::found_string(v, "conversation_id"@) {
            Some(s) => Some(s),
            None => json::found_string(v, "session_id"@),
        },
    }
}

/// Appends the field of that name, where the object has it.
pub open spec fn picked(
    v: JsonView,
    key: Seq<char>,
    fields: Seq<(Seq<char>, JsonView)>,
) -> Seq<(Seq<char>, JsonView)> {
    match json::field(v, key) {
        Some(value) => fields.push((key, value)),
        None => fields,
    }
}

/// The part of a request that its cache is made of: of an object the fields
/// that come before the conversation, of another value all of it.
pub open spec fn prefix_of(v: JsonView) -> JsonView {
    match v {
        JsonView::Object(_) => {
            let none = Seq::<(Seq<char>, JsonView)>::empty();
            let a = picked(v, "instructions"@, none);
            let b = picked(v, "messages"@, a);
            let c = picked(v, "tools"@, b);
            let d = picked(v, "text"@, c);
            JsonView::Object(picked(v, "response_format"@, d))
        },
        _ => v,
    }
}

/// The bytes that a session's key is the digest of.
pub open spec fn key_material(
    upstream_id: Seq<char>,
    model: Seq<char>,
    endpoint: Seq<char>,
    conversation: Seq<char>,
    v: JsonView,
) -> Seq<u8> {
    utf8::encode_utf8(upstream_id) + utf8::encode_utf8(model) + utf8::encode_utf8(endpoint)
        + utf8::encode_utf8(conversation) + utf8::encode_utf8(json::json_text(prefix_of(v)))
}

/// The key of a request's session: none where the request is no JSON or names
/// no conversation.
pub open spec fn key_of(
    upstream_id: Seq<char>,
    model: Seq<char>,
    endpoint: Seq<char>,
    document: Result<JsonView, Seq<char>>,
) -> Option<Seq<char>> {
    match document {
        Ok(v) => match conversation_of(v) {
            Some(conversation) => Some(
                sha256_hex(key_material(upstream_id, model, endpoint, conversation, v)),
            ),
            None => None,
        },
        Err(_) => None,
    }
}

/// The name of the conversation that a request belongs to.
pub fn raw_session(value: &Json) -> (r: Option<String>)
    ensures
        text::opt_view(r) == conversation_of(value.view()),
{
    if let Some(s) = value.find_string("prompt_cache_key") {
        return Some(s);
    }
    if let Some(s) = value.find_string("conversation_id") {
        return Some(s);
    }
    value.find_string("session_id")
}

/// Appends a copy of the field of that name, where the value has it.
fn pick(value: &Json, key: &str, fields: &mut Vec<(String, Json)>)
    ensures
        Json::Object(*final(fields)).view()->Object_0 == picked(
            value.view(),
            key@,
            Json::Object(*old(fields)).view()->Object_0,
        ),
{
    let ghost before = Json::Object(*old(fields)).view()->Object_0;
    if let Some(v) = value.get(key) {
        fields.push((key.to_string(), v.copy()));
    }
    assert(Json::Object(*fields).view()->Object_0 =~= picked(value.view(), key@, before));
}

/// The part of a request that its cache is made of.
pub fn cacheable_prefix(value: &Json) -> (r: Json)
    ensures
        r.view() == prefix_of(value.view()),
{
    match value {
        Json::Object(_) => {
            let mut fields: Vec<(String, Json)> = Vec::new();
            assert(Json::Object(fields).view()->Object_0 =~= Seq::<(Seq<char>, JsonView)>::empty());
            pick(value, "instructions", &mut fields);
            pick(value, "messages", &mut fields);
            pick(value, "tools", &mut fields);
            pick(value, "text", &mut fields);
            pick(value, "response_format", &mut fields);
            Json::Object(fields)
        },
        _ => value.copy(),
    }
}

/// The text of the part of a request that its cache is made of.
pub fn cacheable_prefix_fingerprint(value: &Json) -> (r: String)
    ensures
        r@ == json::json_text(prefix_of(value.view())),
{
    json::to_text(&cacheable_prefix(value))
}

/// Appends bytes.
fn append(out: &mut Vec<u8>, part: &str)
    ensures
        final(out)@ == old(out)@ + utf8::encode_utf8(part@),
{
    let mut bytes: Vec<u8> = part.as_bytes_vec();
    out.append(&mut bytes);
}

/// The key of a request's session.
pub fn session_key(upstream_id: &str, model: &str, endpoint: &str, body: &[u8]) -> (r: Option<
    String,
>)
    ensures
        text::opt_view(r) == key_of(upstream_id@, model@, endpoint@, json::json_of_bytes(body@)),
{
    match json::parse(body) {
        Ok(value) => session_key_of(upstream_id, model, endpoint, &value),
        Err(_) => None,
    }
}

/// The key of the session of a request that has been read.
pub fn session_key_of(upstream_id: &str, model: &str, endpoint: &str, value: &Json) -> (r: Option<
    String,
>)
    ensures
        text::opt_view(r) == key_of(upstream_id@, model@, endpoint@, Ok(value.view())),
        r matches Some(key) ==> key@.len() == 64,
{
    match raw_session(value) {
        Some(conversation) => {
            let mut material: Vec<u8> = Vec::new();
            append(&mut material, upstream_id);
            append(&mut material, model);
            append(&mut material, endpoint);
            append(&mut material, conversation.as_str());
            append(&mut material, cacheable_prefix_fingerprint(value).as_str());
            assert(material@ =~= key_material(
                upstream_id@,
                model@,
                endpoint@,
                conversation@,
                value.view(),
            ));
            Some(digest_text(material.as_slice()))
        },
        None => None,
    }
}

/// The first twelve characters, by which a key is known in messages.
pub fn short_hash(value: &str) -> (r: String)
    ensures
        r@ == value@.take(if value@.len() < 12 {
            value@.len() as int
        } else {
            12
        }),
{
    let chars: Vec<char> = text::to_chars(value);
    let end: usize = if chars.len() < 12 {
        chars.len()
    } else {
        12
    };
    let r: String = text::slice_chars(&chars, 0, end);
    assert(r@ =~= value@.take(end as int));
    r
}

/// The part of a request that its cache is made of holds the five fields that
/// come before the conversation, as the request has them, and no others.
pub proof fn law_prefix_is_the_cached_part(v: JsonView, key: Seq<char>)
    requires
        v is Object,
    ensures
        ({
            let cached = key == "instructions"@ || key == "messages"@ || key == "tools"@ || key
                == "text"@ || key == "response_format"@;
            &&& cached ==> json::field(prefix_of(v), key) == json::field(v, key)
            &&& !cached ==> json::field(prefix_of(v), key) is None
        }),
{
    reveal_strlit("instructions");
    reveal_strlit("messages");
    reveal_strlit("tools");
    reveal_strlit("text");
    reveal_strlit("response_format");
    assert("instructions"@.len() == 12 && "messages"@.len() == 8 && "tools"@.len() == 5);
    assert("text"@.len() == 4 && "response_format"@.len() == 15);
    let none = Seq::<(Seq<char>, JsonView)>::empty();
    assert(!json::has_field(none, key));
    let a = picked(v, "instructions"@, none);
    let b = picked(v, "messages"@, a);
    let c = picked(v, "tools"@, b);
    let d = picked(v, "text"@, c);
    lemma_picked(v, "instructions"@, none, key);
    lemma_picked(v, "messages"@, a, key);
    lemma_picked(v, "tools"@, b, key);
    lemma_picked(v, "text"@, c, key);
    lemma_picked(v, "response_format"@, d, key);
}

proof fn lemma_picked(
    v: JsonView,
    name: Seq<char>,
    fields: Seq<(Seq<char>, JsonView)>,
    key: Seq<char>,
)
    requires
        key == name ==> !json::has_field(fields, key),
    ensures
        json::field(JsonView::Object(picked(v, name, fields)), key) == if key == name {
            json::field(v, name)
        } else {
            json::field(JsonView::Object(fields), key)
        },
{
    if let Some(value) = json::field(v, name) {
        if !json::has_field(fields, name) {
            assert(json::with_field(fields, name, value) =~= fields.push((name, value)));
            if key == name {
                json::law_set_then_get(fields, name, value);
            } else {
                json::law_set_keeps_others(fields, name, value, key);
            }
        } else {
            let after = fields.push((name, value));
            if json::has_field(fields, key) {
                let i = choose|i: int| json::is_field(fields, key, i);
                assert(json::is_field(after, key, i)) by {
                    assert forall|j: int| 0 <= j < i implies (#[trigger] after[j]).0 != key by {
                        assert(fields[j].0 != key);
                    }
                }
                let k = choose|k: int| json::is_field(after, key, k);
                json::lemma_field_unique(after, key, i, k);
            } else {
                json::lemma_no_field(fields, key);
                if json::has_field(after, key) {
                    let k = choose|k: int| json::is_field(after, key, k);
                    assert(k < fields.len() ==> after[k] == fields[k]);
                }
            }
        }
    }
}

/// A conversation is named by its cache key before its identifier, and by this
/// before its session; a name at the top of the request comes before one
/// further down.
pub proof fn law_conversation_is_named_by_its_cache_key(v: JsonView)
    ensures
        json::string_field(v, "prompt_cache_key"@) is Some ==> conversation_of(v)
            == json::string_field(v, "prompt_cache_key"@),
        json::found_string(v, "prompt_cache_key"@) is None && json::string_field(
            v,
            "conversation_id"@,
        ) is Some ==> conversation_of(v) == json::string_field(v, "conversation_id"@),
        json::found_string(v, "prompt_cache_key"@) is None && json::found_string(
            v,
            "conversation_id"@,
        ) is None && json::string_field(v, "session_id"@) is Some ==> conversation_of(v)
            == json::string_field(v, "session_id"@),
        json::found_string(v, "prompt_cache_key"@) is None && json::found_string(
            v,
            "conversation_id"@,
        ) is None && json::found_string(v, "session_id"@) is None ==> conversation_of(v) is None,
{
}

/// Two requests to the same upstream, model and endpoint share a session where
/// they name the same conversation and the same cached part, and a request that
/// is no JSON or names no conversation has none. The upstream, the model, the
/// endpoint, the conversation and the cached part all go into the key.
pub proof fn law_session_is_of_the_cached_part(
    upstream_id: Seq<char>,
    model: Seq<char>,
    endpoint: Seq<char>,
    a: JsonView,
    b: JsonView,
    message: Seq<char>,
)
    ensures
        conversation_of(a) == conversation_of(b) && prefix_of(a) == prefix_of(b) ==> key_of(
            upstream_id,
            model,
            endpoint,
            Ok(a),
        ) == key_of(upstream_id, model, endpoint, Ok(b)),
        key_of(upstream_id, model, endpoint, Ok(a)) is Some <==> conversation_of(a) is Some,
        key_of(upstream_id, model, endpoint, Err(message)) is None,
        conversation_of(a) matches Some(c) ==> {
            let bytes = utf8::encode_utf8(upstream_id) + utf8::encode_utf8(model)
                + utf8::encode_utf8(endpoint) + utf8::encode_utf8(c) + utf8::encode_utf8(
                json::json_text(prefix_of(a)),
            );
            key_of(upstream_id, model, endpoint, Ok(a)) == Some(sha256_hex(bytes))
        },
{
}

} // verus!
