//! What kind of upstream an address belongs to, by the address alone: the
//! settings that suit it, and the shape of its list of models.

use crate::json;
use crate::json::{Json, JsonView};
use crate::models::{ApiKeyAuthScheme, Upstream, WireApi};
use crate::text;
use crate::url_text;
use vstd::prelude::*;

verus! {

/// The kinds of upstreams.
#[derive(Debug, Clone, Copy, PartialEq, Eq, Structural)]
pub enum DetectedKind {
    /// Lists models as `{"data":[{"id": ...}]}`.
    OpenAiCompatible,
    /// The same list; requests need a version header.
    Anthropic,
    /// Lists models as `{"models":[{"slug": ...}]}`, and answers a wrong key
    /// with status 200.
    ZhipuApiV1,
    /// The other addresses of the same provider, with the usual list.
    ZhipuPaas,
    /// The usual list; takes no tools but functions.
    OpenCode,
    /// Treated as the first.
    Unknown,
}

impl DetectedKind {
    /// The name that is shown.
    pub open spec fn name(self) -> Seq<char> {
        match self {
            DetectedKind::OpenAiCompatible => "OpenAI 兼容"@,
            DetectedKind::Anthropic => "Anthropic"@,
            DetectedKind::ZhipuApiV1 => "智谱 /api/v1"@,
            DetectedKind::ZhipuPaas => "智谱 paas"@,
            DetectedKind::OpenCode => "OpenCode"@,
            DetectedKind::Unknown => "未识别"@,
        }
    }

    /// The name that is shown.
    pub fn label(self) -> (r: &'static str)
        ensures
            r@ == self.name(),
    {
        match self {
            DetectedKind::OpenAiCompatible => "OpenAI 兼容",
            DetectedKind::Anthropic => "Anthropic",
            DetectedKind::ZhipuApiV1 => "智谱 /api/v1",
            DetectedKind::ZhipuPaas => "智谱 paas",
            DetectedKind::OpenCode => "OpenCode",
            DetectedKind::Unknown => "未识别",
        }
    }
}

/// Settings that suit an upstream; `None` where the address does not say.
#[derive(Debug, Clone, Copy, PartialEq, Eq, Structural)]
pub struct SuggestedSettings {
    pub wire_api: Option<WireApi>,
    pub api_key_auth_scheme: Option<ApiKeyAuthScheme>,
    pub supports_compact: Option<bool>,
    pub filter_chat_server_tools: Option<bool>,
}

/// The suggested value, or the present one where none is suggested.
pub open spec fn suggested<T>(suggestion: Option<T>, present: T) -> T {
    match suggestion {
        Some(value) => value,
        None => present,
    }
}

/// A name in a list where something changed, nothing otherwise.
pub open spec fn noted(changed: bool, name: &'static str) -> Seq<&'static str> {
    if changed {
        seq![name]
    } else {
        Seq::empty()
    }
}

impl SuggestedSettings {
    /// No suggestion at all.
    pub open spec fn none() -> Self {
        SuggestedSettings {
            wire_api: None,
            api_key_auth_scheme: None,
            supports_compact: None,
            filter_chat_server_tools: None,
        }
    }

    /// An upstream with the suggestions. One that speaks the messages interface
    /// never supports compaction.
    pub open spec fn applied(self, upstream: Upstream) -> Upstream {
        let wire_api = suggested(self.wire_api, upstream.wire_api);
        Upstream {
            wire_api,
            api_key_auth_scheme: suggested(
                self.api_key_auth_scheme,
                upstream.api_key_auth_scheme,
            ),
            supports_compact: suggested(self.supports_compact, upstream.supports_compact)
                && wire_api != WireApi::AnthropicMessages,
            filter_chat_server_tools: suggested(
                self.filter_chat_server_tools,
                upstream.filter_chat_server_tools,
            ),
            ..upstream
        }
    }

    /// The names of the settings that a suggestion changes.
    pub open spec fn changes(self, upstream: Upstream) -> Seq<&'static str> {
        let after = self.applied(upstream);
        let compact = suggested(self.supports_compact, upstream.supports_compact);
        noted(after.wire_api != upstream.wire_api, "Wire API") + noted(
            after.api_key_auth_scheme != upstream.api_key_auth_scheme,
            "API Key 认证",
        ) + noted(compact != upstream.supports_compact, "支持 compact") + noted(
            after.filter_chat_server_tools != upstream.filter_chat_server_tools,
            "过滤 server_tool",
        ) + noted(
            compact == upstream.supports_compact && compact && !after.supports_compact,
            "支持 compact",
        )
    }

    /// Puts the suggestions into an upstream; the names of what has changed.
    pub fn apply_to(self, upstream: &mut Upstream) -> (r: Vec<&'static str>)
        ensures
            *final(upstream) == self.applied(*old(upstream)),
            r@ == self.changes(*old(upstream)),
    {
        let wire_api: WireApi = match self.wire_api {
            Some(wire_api) => wire_api,
            None => upstream.wire_api,
        };
        let scheme: ApiKeyAuthScheme = match self.api_key_auth_scheme {
            Some(scheme) => scheme,
            None => upstream.api_key_auth_scheme,
        };
        let compact: bool = match self.supports_compact {
            Some(compact) => compact,
            None => upstream.supports_compact,
        };
        let filter: bool = match self.filter_chat_server_tools {
            Some(filter) => filter,
            None => upstream.filter_chat_server_tools,
        };
        let forced: bool = wire_api == WireApi::AnthropicMessages && compact;
        let mut changed: Vec<&'static str> = Vec::new();
        note(&mut changed, wire_api != upstream.wire_api, "Wire API");
        note(&mut changed, scheme != upstream.api_key_auth_scheme, "API Key 认证");
        note(&mut changed, compact != upstream.supports_compact, "支持 compact");
        note(&mut changed, filter != upstream.filter_chat_server_tools, "过滤 server_tool");
        note(&mut changed, forced && compact == upstream.supports_compact, "支持 compact");
        assert(changed@ =~= self.changes(*old(upstream)));
        upstream.wire_api = wire_api;
        upstream.api_key_auth_scheme = scheme;
        upstream.supports_compact = compact && !forced;
        upstream.filter_chat_server_tools = filter;
        changed
    }
}

/// Adds a name to a list where something changed.
fn note(changed: &mut Vec<&'static str>, flag: bool, name: &'static str)
    ensures
        final(changed)@ == old(changed)@ + noted(flag, name),
{
    if flag {
        changed.push(name);
    }
    assert(changed@ =~= old(changed)@ + noted(flag, name));
}

/// Applying a suggestion twice is the same as applying it once.
pub proof fn law_apply_idempotent(suggestion: SuggestedSettings, upstream: Upstream)
    ensures
        suggestion.applied(suggestion.applied(upstream)) == suggestion.applied(upstream),
{
}

/// A suggestion that has been applied has nothing left to change, unless it
/// asks for compaction of an upstream that never supports it.
pub proof fn law_applied_is_settled(suggestion: SuggestedSettings, upstream: Upstream)
    requires
        !(suggestion.supports_compact == Some(true) && suggestion.applied(upstream).wire_api
            == WireApi::AnthropicMessages),
    ensures
        suggestion.changes(suggestion.applied(upstream)).len() == 0,
{
}

/// An upstream that speaks the messages interface never supports compaction
/// after a suggestion.
pub proof fn law_messages_never_compact(suggestion: SuggestedSettings, upstream: Upstream)
    ensures
        suggestion.applied(upstream).wire_api == WireApi::AnthropicMessages
            ==> !suggestion.applied(upstream).supports_compact,
{
}

/// What an address says of its upstream.
#[derive(Debug, Clone, Copy)]
pub struct DetectedUpstream {
    pub kind: DetectedKind,
    pub suggestion: SuggestedSettings,
    /// The field that holds the list of models.
    pub models_container: &'static str,
    /// The field that holds a model's identifier.
    pub models_id_field: &'static str,
    /// Whether errors come with status 200 and an envelope.
    pub envelope_errors: bool,
}

/// An upstream of which the address says nothing.
pub open spec fn undetected() -> DetectedUpstream {
    DetectedUpstream {
        kind: DetectedKind::Unknown,
        suggestion: SuggestedSettings::none(),
        models_container: "data",
        models_id_field: "id",
        envelope_errors: false,
    }
}

/// An upstream with the usual list of models.
pub open spec fn usual(kind: DetectedKind, suggestion: SuggestedSettings) -> DetectedUpstream {
    DetectedUpstream { kind, suggestion, ..undetected() }
}

/// Settings that suit most upstreams with the chat interface.
pub open spec fn chat_settings() -> SuggestedSettings {
    SuggestedSettings {
        wire_api: Some(WireApi::ChatCompletions),
        api_key_auth_scheme: Some(ApiKeyAuthScheme::Bearer),
        ..SuggestedSettings::none()
    }
}

/// The path of a URL, or the text itself where it is no URL.
pub open spec fn path_or_text(url: Seq<char>) -> Seq<char> {
    match url_text::url_path(url) {
        Some(path) => path,
        None => url,
    }
}

/// Whether a path is one at which models are listed with slugs.
pub open spec fn lists_slugs(path: Seq<char>) -> bool {
    let bare = text::without_trailing(path, '/');
    bare.len() == 0 || "/api"@.is_suffix_of(bare) || "/api/v1"@.is_suffix_of(bare)
}

/// Whether a lower-case address is that of a provider known for the chat
/// interface.
pub open spec fn is_known_chat(url: Seq<char>) -> bool {
    ||| text::occurs_in(url, "api.deepseek.com"@)
    ||| text::occurs_in(url, "api.siliconflow.cn"@)
    ||| text::occurs_in(url, "api.siliconflow.com"@)
    ||| text::occurs_in(url, "api.stepfun.com"@)
    ||| text::occurs_in(url, "api.stepfun.ai"@)
    ||| text::occurs_in(url, "openrouter.ai"@)
    ||| text::occurs_in(url, "api.novita.ai"@)
}

/// What a lower-case address without space around it says, its path being
/// known.
pub open spec fn detection_of(url: Seq<char>, path: Seq<char>) -> DetectedUpstream {
    if url.len() == 0 {
        undetected()
    } else if text::occurs_in(url, "api.anthropic.com"@) {
        usual(
            DetectedKind::Anthropic,
            SuggestedSettings {
                wire_api: Some(WireApi::AnthropicMessages),
                api_key_auth_scheme: Some(ApiKeyAuthScheme::XApiKey),
                supports_compact: Some(false),
                filter_chat_server_tools: None,
            },
        )
    } else if text::occurs_in(url, "open.bigmodel.cn"@) || text::occurs_in(url, "api.z.ai"@) {
        if lists_slugs(path) {
            DetectedUpstream {
                kind: DetectedKind::ZhipuApiV1,
                suggestion: SuggestedSettings {
                    wire_api: Some(WireApi::Responses),
                    api_key_auth_scheme: Some(ApiKeyAuthScheme::Bearer),
                    ..SuggestedSettings::none()
                },
                models_container: "models",
                models_id_field: "slug",
                envelope_errors: true,
            }
        } else {
            usual(DetectedKind::ZhipuPaas, chat_settings())
        }
    } else if text::occurs_in(url, "opencode.ai"@) {
        usual(
            DetectedKind::OpenCode,
            SuggestedSettings { filter_chat_server_tools: Some(true), ..chat_settings() },
        )
    } else if is_known_chat(url) {
        usual(DetectedKind::OpenAiCompatible, chat_settings())
    } else {
        undetected()
    }
}

/// What is detected hangs together: the list of models is an unusual one for
/// one kind alone, and each kind has its own suggestions.
pub proof fn law_detection_hangs_together(url: Seq<char>, path: Seq<char>)
    ensures
        ({
            let d = detection_of(url, path);
            &&& d.envelope_errors <==> d.kind == DetectedKind::ZhipuApiV1
            &&& d.models_container@ == "models"@ <==> d.kind == DetectedKind::ZhipuApiV1
            &&& d.models_id_field@ == "slug"@ <==> d.kind == DetectedKind::ZhipuApiV1
            &&& d.kind != DetectedKind::ZhipuApiV1 ==> d.models_container@ == "data"@
                && d.models_id_field@ == "id"@
            &&& d.suggestion.filter_chat_server_tools == Some(true) <==> d.kind
                == DetectedKind::OpenCode
            &&& d.suggestion.wire_api == Some(WireApi::AnthropicMessages) <==> d.kind
                == DetectedKind::Anthropic
            &&& d.suggestion.wire_api is None <==> d.kind == DetectedKind::Unknown
        }),
{
    reveal_strlit("models");
    reveal_strlit("data");
    reveal_strlit("slug");
    reveal_strlit("id");
    assert("models"@.len() != "data"@.len() && "slug"@.len() != "id"@.len());
}

/// An address in lower case without the space around it.
pub open spec fn normalized(base_url: Seq<char>) -> Seq<char> {
    text::ascii_lowered(text::trimmed(base_url))
}

/// The settings without any suggestion.
fn no_settings() -> (r: SuggestedSettings)
    ensures
        r == SuggestedSettings::none(),
{
    SuggestedSettings {
        wire_api: None,
        api_key_auth_scheme: None,
        supports_compact: None,
        filter_chat_server_tools: None,
    }
}

/// An upstream with the usual list of models.
fn with_usual_list(kind: DetectedKind, suggestion: SuggestedSettings) -> (r: DetectedUpstream)
    ensures
        r == usual(kind, suggestion),
{
    DetectedUpstream {
        kind,
        suggestion,
        models_container: "data",
        models_id_field: "id",
        envelope_errors: false,
    }
}

/// An upstream of which the address says nothing.
pub fn default_detection() -> (r: DetectedUpstream)
    ensures
        r == undetected(),
{
    with_usual_list(DetectedKind::Unknown, no_settings())
}

fn chat_suggestion() -> (r: SuggestedSettings)
    ensures
        r == chat_settings(),
{
    SuggestedSettings {
        wire_api: Some(WireApi::ChatCompletions),
        api_key_auth_scheme: Some(ApiKeyAuthScheme::Bearer),
        supports_compact: None,
        filter_chat_server_tools: None,
    }
}

/// Whether a lower-case address is that of a provider known for the chat
/// interface.
pub fn is_known_openai_compatible(url: &str) -> (r: bool)
    ensures
        r == is_known_chat(url@),
{
    text::contains(url, "api.deepseek.com") || text::contains(url, "api.siliconflow.cn")
        || text::contains(url, "api.siliconflow.com") || text::contains(url, "api.stepfun.com")
        || text::contains(url, "api.stepfun.ai") || text::contains(url, "openrouter.ai")
        || text::contains(url, "api.novita.ai")
}

/// Whether a path is one at which models are listed with slugs.
pub fn is_zhipu_api_v1(path: &str) -> (r: bool)
    ensures
        r == lists_slugs(path@),
{
    let bare: String = text::strip_trailing(path, '/');
    text::is_empty(bare.as_str()) || text::ends_with(bare.as_str(), "/api") || text::ends_with(
        bare.as_str(),
        "/api/v1",
    )
}

/// The path of a URL, or the text itself where it is no URL.
fn url_path(url: &str) -> (r: String)
    requires
        url@.len() <= url_text::LONGEST_URL,
    ensures
        r@ == path_or_text(url@),
{
    match url_text::path_of(url) {
        Some(path) => path,
        None => url.to_string(),
    }
}

/// What a lower-case address says, its path being known.
pub fn detect_with_path(url: &str, path: &str) -> (r: DetectedUpstream)
    ensures
        r == detection_of(url@, path@),
{
    if text::is_empty(url) {
        return default_detection();
    }
    if text::contains(url, "api.anthropic.com") {
        return with_usual_list(
            DetectedKind::Anthropic,
            SuggestedSettings {
                wire_api: Some(WireApi::AnthropicMessages),
                api_key_auth_scheme: Some(ApiKeyAuthScheme::XApiKey),
                supports_compact: Some(false),
                filter_chat_server_tools: None,
            },
        );
    }
    if text::contains(url, "open.bigmodel.cn") || text::contains(url, "api.z.ai") {
        if is_zhipu_api_v1(path) {
            return DetectedUpstream {
                kind: DetectedKind::ZhipuApiV1,
                suggestion: SuggestedSettings {
                    wire_api: Some(WireApi::Responses),
                    api_key_auth_scheme: Some(ApiKeyAuthScheme::Bearer),
                    supports_compact: None,
                    filter_chat_server_tools: None,
                },
                models_container: "models",
                models_id_field: "slug",
                envelope_errors: true,
            };
        }
        return with_usual_list(DetectedKind::ZhipuPaas, chat_suggestion());
    }
    if text::contains(url, "opencode.ai") {
        return with_usual_list(
            DetectedKind::OpenCode,
            SuggestedSettings {
                wire_api: Some(WireApi::ChatCompletions),
                api_key_auth_scheme: Some(ApiKeyAuthScheme::Bearer),
                supports_compact: None,
                filter_chat_server_tools: Some(true),
            },
        );
    }
    if is_known_openai_compatible(url) {
        return with_usual_list(DetectedKind::OpenAiCompatible, chat_suggestion());
    }
    default_detection()
}

/// What an address says of its upstream.
pub fn detect_upstream(base_url: &str) -> (r: DetectedUpstream)
    requires
        base_url@.len() <= url_text::LONGEST_URL,
    ensures
        r == detection_of(normalized(base_url@), path_or_text(normalized(base_url@))),
{
    let bare: String = text::trim(base_url);
    let url: String = text::to_ascii_lower(bare.as_str());
    proof {
        text::lemma_trimmed_length(base_url@);
    }
    let path: String = url_path(url.as_str());
    detect_with_path(url.as_str(), path.as_str())
}

/// Whether an envelope's code says that the request failed.
pub open spec fn code_failed(v: JsonView) -> bool {
    match json::field(v, "code"@) {
        Some(JsonView::Number { integer: Some(code), .. }) => code != 200,
        Some(JsonView::Text(code)) => code != "200"@,
        _ => false,
    }
}

/// The message of an error, in either of its usual places.
pub open spec fn error_message(v: JsonView) -> Seq<char> {
    let nested = match json::field(v, "error"@) {
        Some(error) => json::string_field(error, "message"@),
        None => None,
    };
    match nested {
        Some(message) => message,
        None => match json::string_field(v, "msg"@) {
            Some(message) => message,
            None => "models endpoint returned an error"@,
        },
    }
}

/// Whether an answer that lists models says that it failed.
pub open spec fn models_failed(d: DetectedUpstream, status_success: bool, v: JsonView) -> bool {
    ||| !status_success
    ||| d.envelope_errors && (json::field(v, "success"@) == Some(JsonView::Bool(false))
        || code_failed(v))
}

/// Whether an envelope's code says that the request failed.
pub fn envelope_code_failed(value: &Json) -> (r: bool)
    ensures
        r == code_failed(value.view()),
{
    match value.get("code") {
        Some(Json::Number(n)) => match n.integer {
            Some(code) => code != 200,
            None => false,
        },
        Some(Json::Text(code)) => !text::same(code.as_str(), "200"),
        _ => false,
    }
}

/// The message of an error.
pub fn error_text(value: &Json) -> (r: String)
    ensures
        r@ == error_message(value.view()),
{
    if let Some(error) = value.get("error") {
        if let Some(message) = error.get_str("message") {
            return message.clone();
        }
    }
    match value.get_str("msg") {
        Some(message) => message.clone(),
        None => "models endpoint returned an error".to_string(),
    }
}

impl DetectedUpstream {
    /// What is wrong with an answer that lists models, if anything.
    pub fn models_error(self, status_success: bool, value: &Json) -> (r: Option<String>)
        ensures
            text::opt_view(r) == if models_failed(self, status_success, value.view()) {
                Some(error_message(value.view()))
            } else {
                None
            },
    {
        if !status_success {
            return Some(error_text(value));
        }
        if !self.envelope_errors {
            return None;
        }
        let denied: bool = match value.get("success") {
            Some(Json::Bool(b)) => !*b,
            _ => false,
        };
        if denied || envelope_code_failed(value) {
            Some(error_text(value))
        } else {
            None
        }
    }

    /// Whether there is a setting to take over.
    pub fn has_suggestion(self) -> (r: bool)
        ensures
            r == (self.suggestion != SuggestedSettings::none()),
    {
        self.suggestion.wire_api.is_some() || self.suggestion.api_key_auth_scheme.is_some()
            || self.suggestion.supports_compact.is_some()
            || self.suggestion.filter_chat_server_tools.is_some()
    }

    /// The address that would list models, where this one would not.
    pub open spec fn hint(self, base_url: Seq<char>, path: Seq<char>) -> Option<Seq<char>> {
        let url = normalized(base_url);
        if self.kind != DetectedKind::ZhipuApiV1 && self.kind != DetectedKind::ZhipuPaas {
            None
        } else if text::without_trailing(path, '/').len() > 0 {
            None
        } else if text::occurs_in(url, "bigmodel.cn"@) {
            Some("https://open.bigmodel.cn/api/v1"@)
        } else if text::occurs_in(url, "z.ai"@) {
            Some("https://api.z.ai/api/v1"@)
        } else {
            None
        }
    }

    /// The address that would list models, the path of this one being known.
    pub fn hint_with_path(self, base_url: &str, path: &str) -> (r: Option<&'static str>)
        ensures
            match r {
                Some(hint) => self.hint(base_url@, path@) == Some(hint@),
                None => self.hint(base_url@, path@) is None,
            },
    {
        if self.kind != DetectedKind::ZhipuApiV1 && self.kind != DetectedKind::ZhipuPaas {
            return None;
        }
        if !text::is_empty(text::strip_trailing(path, '/').as_str()) {
            return None;
        }
        let bare: String = text::trim(base_url);
        let url: String = text::to_ascii_lower(bare.as_str());
        if text::contains(url.as_str(), "bigmodel.cn") {
            Some("https://open.bigmodel.cn/api/v1")
        } else if text::contains(url.as_str(), "z.ai") {
            Some("https://api.z.ai/api/v1")
        } else {
            None
        }
    }

    /// The address that would list models, where this one would not.
    pub fn base_url_hint(self, base_url: &str) -> (r: Option<&'static str>)
        requires
            base_url@.len() <= url_text::LONGEST_URL,
        ensures
            match r {
                Some(hint) => self.hint(base_url@, path_or_text(base_url@)) == Some(hint@),
                None => self.hint(base_url@, path_or_text(base_url@)) is None,
            },
    {
        let path: String = url_path(base_url);
        self.hint_with_path(base_url, path.as_str())
    }
}

/// What is suggested suits the kind that was detected: the chat interface with
/// a bearer key to every site known for it, the responses interface to the one
/// that lists its models by slugs, and the messages interface, with a key in
/// its own header and without compaction, to Anthropic; nothing to a site that
/// is not known.
pub proof fn law_suggestion_suits_the_kind(url: Seq<char>, path: Seq<char>)
    ensures
        ({
            let d = detection_of(url, path);
            let s = d.suggestion;
            let chat = d.kind == DetectedKind::OpenAiCompatible || d.kind
                == DetectedKind::ZhipuPaas || d.kind == DetectedKind::OpenCode;
            &&& s.wire_api == Some(WireApi::ChatCompletions) <==> chat
            &&& s.wire_api == Some(WireApi::Responses) <==> d.kind == DetectedKind::ZhipuApiV1
            &&& s.wire_api == Some(WireApi::AnthropicMessages) <==> d.kind
                == DetectedKind::Anthropic
            &&& s.api_key_auth_scheme == Some(ApiKeyAuthScheme::XApiKey) <==> d.kind
                == DetectedKind::Anthropic
            &&& s.api_key_auth_scheme == Some(ApiKeyAuthScheme::Bearer) <==> chat || d.kind
                == DetectedKind::ZhipuApiV1
            &&& s.supports_compact == Some(false) <==> d.kind == DetectedKind::Anthropic
            &&& s.supports_compact != Some(true)
            &&& s.filter_chat_server_tools != Some(false)
            &&& d.kind == DetectedKind::Unknown ==> s.wire_api is None && s.api_key_auth_scheme
                is None && s.supports_compact is None && s.filter_chat_server_tools is None
        }),
{
}

/// A site is recognised by its name in the address: whichever kind is detected,
/// a name of that kind stands in the address, and an address with a name is not
/// left unknown.
pub proof fn law_kind_is_named_in_the_address(url: Seq<char>, path: Seq<char>)
    ensures
        ({
            let kind = detection_of(url, path).kind;
            let zhipu = text::occurs_in(url, "open.bigmodel.cn"@) || text::occurs_in(
                url,
                "api.z.ai"@,
            );
            let chat = text::occurs_in(url, "api.deepseek.com"@) || text::occurs_in(
                url,
                "api.siliconflow.cn"@,
            ) || text::occurs_in(url, "api.siliconflow.com"@) || text::occurs_in(
                url,
                "api.stepfun.com"@,
            ) || text::occurs_in(url, "api.stepfun.ai"@) || text::occurs_in(url, "openrouter.ai"@)
                || text::occurs_in(url, "api.novita.ai"@);
            let anthropic = text::occurs_in(url, "api.anthropic.com"@);
            let opencode = text::occurs_in(url, "opencode.ai"@);
            &&& kind == DetectedKind::Anthropic <==> anthropic
            &&& kind == DetectedKind::ZhipuApiV1 || kind == DetectedKind::ZhipuPaas <==> zhipu
                && !anthropic
            &&& kind == DetectedKind::OpenCode <==> opencode && !zhipu && !anthropic
            &&& kind == DetectedKind::OpenAiCompatible <==> chat && !opencode && !zhipu
                && !anthropic
            &&& kind == DetectedKind::Unknown <==> !chat && !opencode && !zhipu && !anthropic
        }),
{
    if url.len() == 0 {
        lemma_nothing_holds_a_name(url, "api.anthropic.com"@);
        lemma_nothing_holds_a_name(url, "open.bigmodel.cn"@);
        lemma_nothing_holds_a_name(url, "api.z.ai"@);
        lemma_nothing_holds_a_name(url, "opencode.ai"@);
        lemma_nothing_holds_a_name(url, "api.deepseek.com"@);
        lemma_nothing_holds_a_name(url, "api.siliconflow.cn"@);
        lemma_nothing_holds_a_name(url, "api.siliconflow.com"@);
        lemma_nothing_holds_a_name(url, "api.stepfun.com"@);
        lemma_nothing_holds_a_name(url, "api.stepfun.ai"@);
        lemma_nothing_holds_a_name(url, "openrouter.ai"@);
        lemma_nothing_holds_a_name(url, "api.novita.ai"@);
        reveal_strlit("api.anthropic.com");
        reveal_strlit("open.bigmodel.cn");
        reveal_strlit("api.z.ai");
        reveal_strlit("opencode.ai");
        reveal_strlit("api.deepseek.com");
        reveal_strlit("api.siliconflow.cn");
        reveal_strlit("api.siliconflow.com");
        reveal_strlit("api.stepfun.com");
        reveal_strlit("api.stepfun.ai");
        reveal_strlit("openrouter.ai");
        reveal_strlit("api.novita.ai");
    }
}

proof fn lemma_nothing_holds_a_name(url: Seq<char>, name: Seq<char>)
    requires
        url.len() == 0,
    ensures
        name.len() > 0 ==> !text::occurs_in(url, name),
{
}

/// At a site that lists models by slugs in one place and in the usual way in
/// another, the path decides: the root and the paths that end in `/api` and
/// `/api/v1` list slugs, with or without a slash behind, and no others do.
pub proof fn law_slugs_are_listed_by_path(url: Seq<char>, path: Seq<char>)
    requires
        text::occurs_in(url, "open.bigmodel.cn"@) || text::occurs_in(url, "api.z.ai"@),
        !text::occurs_in(url, "api.anthropic.com"@),
        url.len() > 0,
    ensures
        ({
            let bare = text::without_trailing(path, '/');
            let slugs = bare.len() == 0 || "/api"@.is_suffix_of(bare) || "/api/v1"@.is_suffix_of(
                bare,
            );
            let d = detection_of(url, path);
            &&& slugs ==> d.kind == DetectedKind::ZhipuApiV1
            &&& !slugs ==> d.kind == DetectedKind::ZhipuPaas
            &&& d.kind == detection_of(url, path.push('/')).kind
        }),
{
    assert(path.push('/').drop_last() =~= path);
}

/// The space around an address and the case of its letters say nothing of it.
pub proof fn law_case_and_space_say_nothing(base_url: Seq<char>)
    ensures
        normalized(text::trimmed(base_url)) == normalized(base_url),
        normalized(base_url).len() == text::trimmed(base_url).len(),
        forall|i: int|
            0 <= i < normalized(base_url).len() ==> !('A' <= (#[trigger] normalized(base_url)[i])
                <= 'Z'),
{
    text::law_trim_is_settled(base_url);
}

/// A suggestion that is applied stands in the upstream, what is not suggested
/// stays, and nothing but the four settings changes.
pub proof fn law_suggestions_are_applied(suggestion: SuggestedSettings, upstream: Upstream)
    ensures
        ({
            let after = suggestion.applied(upstream);
            &&& suggestion.wire_api is Some ==> after.wire_api == suggestion.wire_api->0
            &&& suggestion.wire_api is None ==> after.wire_api == upstream.wire_api
            &&& suggestion.api_key_auth_scheme is Some ==> after.api_key_auth_scheme
                == suggestion.api_key_auth_scheme->0
            &&& suggestion.api_key_auth_scheme is None ==> after.api_key_auth_scheme
                == upstream.api_key_auth_scheme
            &&& suggestion.filter_chat_server_tools is Some ==> after.filter_chat_server_tools
                == suggestion.filter_chat_server_tools->0
            &&& suggestion.filter_chat_server_tools is None ==> after.filter_chat_server_tools
                == upstream.filter_chat_server_tools
            &&& after.wire_api != WireApi::AnthropicMessages && suggestion.supports_compact is Some
                ==> after.supports_compact == suggestion.supports_compact->0
            &&& after.wire_api != WireApi::AnthropicMessages && suggestion.supports_compact is None
                ==> after.supports_compact == upstream.supports_compact
            &&& after == (Upstream {
                wire_api: after.wire_api,
                api_key_auth_scheme: after.api_key_auth_scheme,
                supports_compact: after.supports_compact,
                filter_chat_server_tools: after.filter_chat_server_tools,
                ..upstream
            })
        }),
{
}

/// A change is told for each setting that a suggestion changes, and for no
/// other: as many are named as settings differ.
pub proof fn law_changes_are_told(suggestion: SuggestedSettings, upstream: Upstream)
    requires
        suggestion.supports_compact is None || suggestion.supports_compact == Some(false),
    ensures
        ({
            let after = suggestion.applied(upstream);
            let told = suggestion.changes(upstream);
            let n = |changed: bool|
                if changed {
                    1nat
                } else {
                    0nat
                };
            &&& told.len() == n(after.wire_api != upstream.wire_api) + n(
                after.api_key_auth_scheme != upstream.api_key_auth_scheme,
            ) + n(after.supports_compact != upstream.supports_compact) + n(
                after.filter_chat_server_tools != upstream.filter_chat_server_tools,
            )
            &&& after.wire_api != upstream.wire_api ==> told[0] == "Wire API"
        }),
{
}

/// A list of models has failed where its status says so. Where the upstream
/// tells errors in its answer, it has also failed where that says no success or
/// a code other than 200, as a number or a text; elsewhere the answer is not
/// asked.
pub proof fn law_models_fail_by_status_or_code(
    d: DetectedUpstream,
    status_success: bool,
    v: JsonView,
    code: i64,
)
    ensures
        !status_success ==> models_failed(d, status_success, v),
        status_success && !d.envelope_errors ==> !models_failed(d, status_success, v),
        status_success && d.envelope_errors ==> {
            &&& json::field(v, "success"@) == Some(JsonView::Bool(false)) ==> models_failed(
                d,
                status_success,
                v,
            )
            &&& json::field(v, "success"@) != Some(JsonView::Bool(false)) && json::field(v, "code"@)
                is None ==> !models_failed(d, status_success, v)
            &&& json::field(v, "success"@) != Some(JsonView::Bool(false)) && json::field(v, "code"@)
                == Some(JsonView::Text("200"@)) ==> !models_failed(d, status_success, v)
            &&& json::field(v, "success"@) != Some(JsonView::Bool(false)) && json::field(v, "code"@)
                is Some && json::field(v, "code"@)->0 is Number && json::field(v, "code"@)->0->integer
                == Some(code) ==> (models_failed(d, status_success, v) <==> code != 200)
        },
{
}

/// The message of an error is the one within it, before the plain one beside
/// it, and a general one where there is neither.
pub proof fn law_error_is_told_by_its_message(v: JsonView, error: JsonView, message: Seq<char>)
    ensures
        json::field(v, "error"@) == Some(error) && json::string_field(error, "message"@) == Some(
            message,
        ) ==> error_message(v) == message,
        json::field(v, "error"@) is None && json::string_field(v, "msg"@) == Some(message)
            ==> error_message(v) == message,
        json::field(v, "error"@) is None && json::string_field(v, "msg"@) is None ==> error_message(
            v,
        ) == "models endpoint returned an error"@,
{
}

} // verus!
