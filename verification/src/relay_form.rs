//! The form in which a relay with an API key is added.

use crate::balance;
use crate::clock;
use crate::clock::Timestamp;
use crate::http;
use crate::models;
use crate::models::{
    ApiKeyAuthScheme, BalanceProvider, ErrorRetryPolicy, UnknownModalityPolicy, Upstream,
    UpstreamKind, WireApi,
};
use crate::text;
use crate::upstream_detection;
use crate::upstream_detection::{DetectedKind, DetectedUpstream, SuggestedSettings};
use crate::url_text;
use vstd::prelude::*;

verus! {

/// What is in the form, and which of it was set by hand: that is not replaced
/// by what the address suggests.
#[derive(Debug)]
pub struct RelayForm {
    pub name: String,
    pub base_url: String,
    pub proxy_url: String,
    pub api_key: String,
    pub wire_api: WireApi,
    pub api_key_auth_scheme: ApiKeyAuthScheme,
    pub supports_compact: bool,
    pub filter_chat_server_tools: bool,
    pub wire_api_touched: bool,
    pub auth_touched: bool,
    pub filter_touched: bool,
}

/// A relay that is to be added, with its key and what its address said.
#[derive(Debug)]
pub struct NewRelay {
    pub upstream: Upstream,
    pub api_key: String,
    pub detected: DetectedKind,
}

/// The value of a setting: the suggested one, unless there is none or the
/// setting was made by hand.
pub open spec fn hinted<T>(suggestion: Option<T>, touched: bool, present: T) -> T {
    match suggestion {
        Some(value) => if touched {
            present
        } else {
            value
        },
        None => present,
    }
}

impl RelayForm {
    /// The form before anything was typed.
    pub fn new_empty() -> (r: Self)
        ensures
            r.name@.len() == 0,
            r.base_url@.len() == 0,
            r.proxy_url@.len() == 0,
            r.api_key@.len() == 0,
            r.wire_api == WireApi::Responses,
            r.api_key_auth_scheme == ApiKeyAuthScheme::Bearer,
            r.supports_compact,
            !r.filter_chat_server_tools,
            !r.wire_api_touched,
            !r.auth_touched,
            !r.filter_touched,
    {
        RelayForm {
            name: String::new(),
            base_url: String::new(),
            proxy_url: String::new(),
            api_key: String::new(),
            wire_api: WireApi::Responses,
            api_key_auth_scheme: ApiKeyAuthScheme::Bearer,
            supports_compact: true,
            filter_chat_server_tools: false,
            wire_api_touched: false,
            auth_touched: false,
            filter_touched: false,
        }
    }

    /// The form once a suggestion was taken over where nothing was set by hand.
    pub open spec fn with_hint(self, suggestion: SuggestedSettings) -> Self {
        let wire_api = hinted(suggestion.wire_api, self.wire_api_touched, self.wire_api);
        RelayForm {
            wire_api,
            api_key_auth_scheme: hinted(
                suggestion.api_key_auth_scheme,
                self.auth_touched,
                self.api_key_auth_scheme,
            ),
            filter_chat_server_tools: hinted(
                suggestion.filter_chat_server_tools,
                self.filter_touched,
                self.filter_chat_server_tools,
            ),
            supports_compact: self.supports_compact && wire_api != WireApi::AnthropicMessages,
            ..self
        }
    }

    /// The form once its address was looked at: an unknown one says nothing.
    pub open spec fn after_detection(self, detected: DetectedUpstream) -> Self {
        if detected.kind == DetectedKind::Unknown {
            self
        } else {
            self.with_hint(detected.suggestion)
        }
    }

    /// Takes over what was detected, where nothing was set by hand.
    pub fn apply_detected(&mut self, detected: DetectedUpstream)
        ensures
            *final(self) == old(self).after_detection(detected),
    {
        if detected.kind == DetectedKind::Unknown {
            return;
        }
        if let Some(wire_api) = detected.suggestion.wire_api {
            if !self.wire_api_touched {
                self.wire_api = wire_api;
            }
        }
        if let Some(scheme) = detected.suggestion.api_key_auth_scheme {
            if !self.auth_touched {
                self.api_key_auth_scheme = scheme;
            }
        }
        if let Some(filter) = detected.suggestion.filter_chat_server_tools {
            if !self.filter_touched {
                self.filter_chat_server_tools = filter;
            }
        }
        if self.wire_api == WireApi::AnthropicMessages {
            self.supports_compact = false;
        }
    }

    /// Takes over what the address in the form says, where nothing was set by
    /// hand.
    pub fn apply_relay_detection_hint(&mut self)
        requires
            old(self).base_url@.len() <= url_text::LONGEST_URL,
        ensures
            *final(self) == old(self).after_detection(
                upstream_detection::detection_of(
                    upstream_detection::normalized(old(self).base_url@),
                    upstream_detection::path_or_text(
                        upstream_detection::normalized(old(self).base_url@),
                    ),
                ),
            ),
    {
        let detected: DetectedUpstream = upstream_detection::detect_upstream(
            self.base_url.as_str(),
        );
        self.apply_detected(detected);
    }

    /// The form once a protocol was chosen by hand: the key goes where that
    /// protocol has it, and messages are not compacted.
    pub fn choose_wire_api(&mut self, wire_api: WireApi)
        ensures
            *final(self) == (RelayForm {
                wire_api,
                api_key_auth_scheme: if wire_api == WireApi::AnthropicMessages {
                    ApiKeyAuthScheme::XApiKey
                } else {
                    ApiKeyAuthScheme::Bearer
                },
                supports_compact: old(self).supports_compact && wire_api
                    != WireApi::AnthropicMessages,
                wire_api_touched: true,
                auth_touched: true,
                ..*old(self)
            }),
    {
        self.wire_api = wire_api;
        if wire_api == WireApi::AnthropicMessages {
            self.api_key_auth_scheme = ApiKeyAuthScheme::XApiKey;
            self.supports_compact = false;
        } else {
            self.api_key_auth_scheme = ApiKeyAuthScheme::Bearer;
        }
        self.wire_api_touched = true;
        self.auth_touched = true;
    }

    /// The form once the place of the key was chosen by hand.
    pub fn choose_auth_scheme(&mut self, scheme: ApiKeyAuthScheme)
        ensures
            *final(self) == (RelayForm {
                api_key_auth_scheme: scheme,
                auth_touched: true,
                ..*old(self)
            }),
    {
        self.api_key_auth_scheme = scheme;
        self.auth_touched = true;
    }

    /// The form once the filter was switched by hand.
    pub fn choose_filter(&mut self, filter: bool)
        ensures
            *final(self) == (RelayForm {
                filter_chat_server_tools: filter,
                filter_touched: true,
                ..*old(self)
            }),
    {
        self.filter_chat_server_tools = filter;
        self.filter_touched = true;
    }

    /// The first thing that is wrong with the form.
    pub open spec fn problem(&self) -> Option<Seq<char>> {
        if text::trimmed(self.name@).len() == 0 || text::trimmed(self.base_url@).len() == 0
            || text::trimmed(self.api_key@).len() == 0 {
            Some("名称, Base URL 和 API Key 都不能为空"@)
        } else {
            match http::proxy_problem(text::trimmed(self.proxy_url@)) {
                Some(message) => Some("代理 URL 无效: "@ + message),
                None => None,
            }
        }
    }

    /// Whether an upstream is the one that the form describes, with a given
    /// identifier and time.
    pub open spec fn describes(&self, u: &Upstream, id: String, now: Timestamp) -> bool {
        &&& u.name@ == text::trimmed(self.name@)
        &&& u.base_url@ == text::trimmed(self.base_url@)
        &&& text::opt_view(u.proxy_url) == text::trimmed_non_empty(self.proxy_url@)
        &&& *u == (Upstream {
            id,
            kind: UpstreamKind::RelayApiKey,
            name: u.name,
            base_url: u.base_url,
            wire_api: self.wire_api,
            api_key_auth_scheme: self.api_key_auth_scheme,
            supports_compact: self.supports_compact && self.wire_api != WireApi::AnthropicMessages,
            filter_chat_server_tools: self.filter_chat_server_tools,
            proxy_url: u.proxy_url,
            enabled: true,
            priority: 0,
            weight: 1,
            price_multiplier: models::plain_price(),
            error_retry_policy: ErrorRetryPolicy::Off,
            strip_multimodal_for_text_models: false,
            unknown_modality_policy: UnknownModalityPolicy::TextOnly,
            balance_provider: match balance::provider_of(text::lowercase_of(u.base_url@)) {
                Some(provider) => provider,
                None => BalanceProvider::Auto,
            },
            chatgpt_account_id: None,
            email: None,
            plan_type: None,
            token_expires_at: None,
            created_at: now,
            updated_at: now,
        })
    }

    /// Whether a relay is the one that the form adds.
    pub open spec fn adds(&self, new: &NewRelay, id: String, now: Timestamp) -> bool {
        let url = upstream_detection::normalized(text::trimmed(self.base_url@));
        &&& self.describes(&new.upstream, id, now)
        &&& new.api_key@ == text::trimmed(self.api_key@)
        &&& new.detected == upstream_detection::detection_of(
            url,
            upstream_detection::path_or_text(url),
        ).kind
    }

    /// The relay that the form adds, with a given identifier and time, or what
    /// is wrong with the form.
    pub fn relay_at(&self, id: String, now: Timestamp) -> (r: Result<NewRelay, String>)
        requires
            self.base_url@.len() <= url_text::LONGEST_URL,
            self.proxy_url@.len() <= url_text::LONGEST_URL,
        ensures
            match r {
                Ok(new) => self.problem() is None && self.adds(&new, id, now),
                Err(message) => self.problem() == Some(message@),
            },
    {
        let name: String = text::trim(self.name.as_str());
        let base_url: String = text::trim(self.base_url.as_str());
        let proxy_url: String = text::trim(self.proxy_url.as_str());
        let api_key: String = text::trim(self.api_key.as_str());
        proof {
            text::lemma_trimmed_length(self.base_url@);
            text::lemma_trimmed_length(self.proxy_url@);
        }
        if text::is_empty(name.as_str()) || text::is_empty(base_url.as_str()) || text::is_empty(
            api_key.as_str(),
        ) {
            return Err("名称, Base URL 和 API Key 都不能为空".to_string());
        }
        if let Err(message) = http::validate_proxy_url(proxy_url.as_str()) {
            return Err(text::concat("代理 URL 无效: ", message.as_str()));
        }
        let provider: BalanceProvider = match balance::detect_provider(base_url.as_str()) {
            Some(provider) => provider,
            None => BalanceProvider::Auto,
        };
        let detected: DetectedKind = upstream_detection::detect_upstream(base_url.as_str()).kind;
        let mut upstream: Upstream = Upstream::relay(
            id,
            now,
            name,
            base_url,
            self.wire_api,
            self.supports_compact,
            provider,
        );
        upstream.api_key_auth_scheme = self.api_key_auth_scheme;
        upstream.filter_chat_server_tools = self.filter_chat_server_tools;
        if self.wire_api == WireApi::AnthropicMessages {
            upstream.supports_compact = false;
        }
        if !text::is_empty(proxy_url.as_str()) {
            upstream.proxy_url = Some(proxy_url);
        }
        Ok(NewRelay { upstream, api_key, detected })
    }

    /// The relay that the form adds, made now with a fresh identifier, or what
    /// is wrong with the form.
    pub fn add_relay(&self) -> (r: Result<NewRelay, String>)
        requires
            self.base_url@.len() <= url_text::LONGEST_URL,
            self.proxy_url@.len() <= url_text::LONGEST_URL,
        ensures
            match r {
                Ok(new) => self.problem() is None && new.upstream.id@.len() == 36 && clock::is_now(
                    new.upstream.created_at,
                ) && self.adds(&new, new.upstream.id, new.upstream.created_at),
                Err(message) => self.problem() == Some(message@),
            },
    {
        let id: String = clock::new_uuid();
        self.relay_at(id, clock::utc_now())
    }

    /// The form once its relay was added: what was typed is gone, and nothing
    /// counts as set by hand.
    pub fn clear_added(&mut self)
        ensures
            final(self).name@.len() == 0,
            final(self).base_url@.len() == 0,
            final(self).proxy_url@.len() == 0,
            final(self).api_key@.len() == 0,
            *final(self) == (RelayForm {
                name: final(self).name,
                base_url: final(self).base_url,
                proxy_url: final(self).proxy_url,
                api_key: final(self).api_key,
                wire_api_touched: false,
                auth_touched: false,
                filter_touched: false,
                ..*old(self)
            }),
    {
        self.name = String::new();
        self.base_url = String::new();
        self.proxy_url = String::new();
        self.api_key = String::new();
        self.wire_api_touched = false;
        self.auth_touched = false;
        self.filter_touched = false;
    }
}

/// What is said once a relay was added.
pub fn added_status(detected: DetectedKind) -> (r: String)
    ensures
        r@ == if detected == DetectedKind::Unknown {
            "已添加 API Key 上游"@
        } else {
            "已添加 API Key 上游 (识别为 "@ + detected.name() + ")"@
        },
{
    if detected == DetectedKind::Unknown {
        "已添加 API Key 上游".to_string()
    } else {
        text::concat3("已添加 API Key 上游 (识别为 ", detected.label(), ")")
    }
}

/// What was set by hand stays: no address replaces it.
pub proof fn law_touched_settings_stay(form: RelayForm, detected: DetectedUpstream)
    ensures
        ({
            let after = form.after_detection(detected);
            &&& form.wire_api_touched ==> after.wire_api == form.wire_api
            &&& form.auth_touched ==> after.api_key_auth_scheme == form.api_key_auth_scheme
            &&& form.filter_touched ==> after.filter_chat_server_tools
                == form.filter_chat_server_tools
            &&& after.wire_api_touched == form.wire_api_touched
            &&& after.auth_touched == form.auth_touched
            &&& after.filter_touched == form.filter_touched
            &&& after.name == form.name
            &&& after.base_url == form.base_url
            &&& after.proxy_url == form.proxy_url
            &&& after.api_key == form.api_key
        }),
{
}

/// Looking at the same address twice changes nothing more.
pub proof fn law_hint_is_settled(form: RelayForm, detected: DetectedUpstream)
    ensures
        form.after_detection(detected).after_detection(detected) == form.after_detection(detected),
{
}

/// A form is refused exactly where its name, address or key is blank, or its
/// proxy is none.
pub proof fn law_form_needs_name_address_and_key(form: &RelayForm)
    ensures
        text::trimmed(form.name@).len() == 0 ==> form.problem() is Some,
        text::trimmed(form.base_url@).len() == 0 ==> form.problem() is Some,
        text::trimmed(form.api_key@).len() == 0 ==> form.problem() is Some,
        text::trimmed(form.name@).len() > 0 && text::trimmed(form.base_url@).len() > 0
            && text::trimmed(form.api_key@).len() > 0 ==> (form.problem() is Some
            <==> http::proxy_problem(text::trimmed(form.proxy_url@)) is Some),
{
}

/// What was not set by hand is taken from the suggestion, as far as there is
/// one; what has no suggestion stays.
pub proof fn law_suggestion_fills_the_rest(form: RelayForm, detected: DetectedUpstream)
    ensures
        ({
            let after = form.after_detection(detected);
            let s = detected.suggestion;
            &&& detected.kind == DetectedKind::Unknown ==> after == form
            &&& detected.kind != DetectedKind::Unknown ==> {
                &&& !form.wire_api_touched && s.wire_api is Some ==> after.wire_api
                    == s.wire_api->0
                &&& !form.auth_touched && s.api_key_auth_scheme is Some
                    ==> after.api_key_auth_scheme == s.api_key_auth_scheme->0
                &&& !form.filter_touched && s.filter_chat_server_tools is Some
                    ==> after.filter_chat_server_tools == s.filter_chat_server_tools->0
                &&& after.supports_compact ==> after.wire_api != WireApi::AnthropicMessages
            }
            &&& s.wire_api is None ==> after.wire_api == form.wire_api
            &&& s.api_key_auth_scheme is None ==> after.api_key_auth_scheme
                == form.api_key_auth_scheme
            &&& s.filter_chat_server_tools is None ==> after.filter_chat_server_tools
                == form.filter_chat_server_tools
            &&& after.supports_compact ==> form.supports_compact
            &&& form.supports_compact && after.wire_api != WireApi::AnthropicMessages
                ==> after.supports_compact
        }),
{
}

/// A relay is added as the form says: with its trimmed name, address and key,
/// its protocol and place of the key, switched on, with no proxy where that is
/// blank. Messages of the Anthropic protocol are never compacted.
pub proof fn law_added_relay_is_as_typed(
    form: &RelayForm,
    new: &NewRelay,
    id: String,
    now: Timestamp,
)
    requires
        form.adds(new, id, now),
    ensures
        new.upstream.id == id,
        new.upstream.kind == UpstreamKind::RelayApiKey,
        new.upstream.enabled,
        new.upstream.name@ == text::trimmed(form.name@),
        new.upstream.base_url@ == text::trimmed(form.base_url@),
        new.api_key@ == text::trimmed(form.api_key@),
        new.upstream.wire_api == form.wire_api,
        new.upstream.api_key_auth_scheme == form.api_key_auth_scheme,
        new.upstream.filter_chat_server_tools == form.filter_chat_server_tools,
        new.upstream.supports_compact <==> form.supports_compact && form.wire_api
            != WireApi::AnthropicMessages,
        new.upstream.proxy_url is None <==> text::trimmed(form.proxy_url@).len() == 0,
        new.upstream.proxy_url matches Some(proxy) ==> proxy@ == text::trimmed(form.proxy_url@),
        new.upstream.created_at == now && new.upstream.updated_at == now,
        new.upstream.priority == 0 && new.upstream.weight == 1,
        new.upstream.error_retry_policy == ErrorRetryPolicy::Off,
        !new.upstream.strip_multimodal_for_text_models,
{
}

} // verus!
