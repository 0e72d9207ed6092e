//! The records that the application keeps: upstreams, schedule groups, usage,
//! logs and settings.

use vstd::prelude::*;
use crate::clock;
use crate::clock::Timestamp;
use crate::double;
use crate::float64::Double;
use crate::text;

verus! {

/// What an upstream is.
#[derive(Debug, Clone, Copy, PartialEq, Eq, Structural)]
pub enum UpstreamKind {
    RelayApiKey,
    CodexOauth,
    PeerNode,
}

impl UpstreamKind {
    /// The stored name.
    pub open spec fn name(self) -> Seq<char> {
        match self {
            UpstreamKind::RelayApiKey => "relay_api_key"@,
            UpstreamKind::CodexOauth => "codex_oauth"@,
            UpstreamKind::PeerNode => "peer_node"@,
        }
    }

    /// The kind of an account or a relay by its name: a relay where it is not
    /// that of an account.
    pub open spec fn of_name(s: Seq<char>) -> Self {
        if s == "codex_oauth"@ {
            UpstreamKind::CodexOauth
        } else {
            UpstreamKind::RelayApiKey
        }
    }

    /// The stored name.
    pub fn as_str(self) -> (r: &'static str)
        ensures
            r@ == self.name(),
    {
        match self {
            UpstreamKind::RelayApiKey => "relay_api_key",
            UpstreamKind::CodexOauth => "codex_oauth",
            UpstreamKind::PeerNode => "peer_node",
        }
    }

    /// The kind of an account or a relay by its name.
    pub fn from_str(value: &str) -> (r: Self)
        ensures
            r == Self::of_name(value@),
    {
        if text::same(value, "codex_oauth") {
            UpstreamKind::CodexOauth
        } else {
            UpstreamKind::RelayApiKey
        }
    }

    /// The kind that has a name, of all kinds.
    pub fn named(value: &str) -> (r: Option<Self>)
        ensures
            match r {
                Some(kind) => kind.name() == value@,
                None => forall|kind: Self| #[trigger] kind.name() != value@,
            },
    {
        if text::same(value, "peer_node") {
            return Some(UpstreamKind::PeerNode);
        }
        let kind: Self = UpstreamKind::from_str(value);
        proof {
            assert forall|any: Self| #[trigger] any.name() == value@ implies any == kind by {
                any.law_name_round_trip(any);
            }
        }
        if text::same(value, kind.as_str()) {
            Some(kind)
        } else {
            None
        }
    }

    /// An account and a relay are what their names read back as, and no two
    /// kinds have the same name.
    pub proof fn law_name_round_trip(self, other: Self)
        ensures
            self != UpstreamKind::PeerNode ==> Self::of_name(self.name()) == self,
            self.name() == other.name() ==> self == other,
    {
        reveal_strlit("relay_api_key");
        reveal_strlit("codex_oauth");
        reveal_strlit("peer_node");
        assert("relay_api_key"@.len() == 13);
        assert("codex_oauth"@.len() == 11);
        assert("peer_node"@.len() == 9);
    }
}

/// The protocol that an upstream speaks.
#[derive(Debug, Clone, Copy, PartialEq, Eq, Structural)]
pub enum WireApi {
    Responses,
    ChatCompletions,
    AnthropicMessages,
}

impl WireApi {
    /// The stored name.
    pub open spec fn name(self) -> Seq<char> {
        match self {
            WireApi::Responses => "responses"@,
            WireApi::ChatCompletions => "chat_completions"@,
            WireApi::AnthropicMessages => "anthropic_messages"@,
        }
    }

    /// The protocol of the two OpenAI ones by its name or an alias: `Responses`
    /// where the name is not that of the chat protocol.
    pub open spec fn of_name(s: Seq<char>) -> Self {
        if s == "chat"@ || s == "openai_chat"@ || s == "chat_completions"@ {
            WireApi::ChatCompletions
        } else {
            WireApi::Responses
        }
    }

    /// The stored name.
    pub fn as_str(self) -> (r: &'static str)
        ensures
            r@ == self.name(),
    {
        match self {
            WireApi::Responses => "responses",
            WireApi::ChatCompletions => "chat_completions",
            WireApi::AnthropicMessages => "anthropic_messages",
        }
    }

    /// The protocol of the two OpenAI ones by its name or an alias.
    pub fn from_str(value: &str) -> (r: Self)
        ensures
            r == Self::of_name(value@),
    {
        if text::same(value, "chat") || text::same(value, "openai_chat") || text::same(
            value,
            "chat_completions",
        ) {
            WireApi::ChatCompletions
        } else {
            WireApi::Responses
        }
    }

    /// The protocol that has a name, of all protocols.
    pub fn named(value: &str) -> (r: Option<Self>)
        ensures
            match r {
                Some(api) => api.name() == value@,
                None => forall|api: Self| #[trigger] api.name() != value@,
            },
    {
        if text::same(value, "anthropic_messages") {
            return Some(WireApi::AnthropicMessages);
        }
        let api: Self = WireApi::from_str(value);
        proof {
            assert forall|any: Self| #[trigger] any.name() == value@ implies any == api by {
                any.law_name_round_trip(any);
            }
        }
        if text::same(value, api.as_str()) {
            Some(api)
        } else {
            None
        }
    }

    /// The two OpenAI protocols are what their names read back as, and no two
    /// protocols have the same name.
    pub proof fn law_name_round_trip(self, other: Self)
        ensures
            self != WireApi::AnthropicMessages ==> Self::of_name(self.name()) == self,
            self.name() == other.name() ==> self == other,
    {
        reveal_strlit("responses");
        reveal_strlit("chat");
        reveal_strlit("openai_chat");
        reveal_strlit("chat_completions");
        reveal_strlit("anthropic_messages");
        assert("responses"@.len() == 9);
        assert("chat"@.len() == 4);
        assert("openai_chat"@.len() == 11);
        assert("chat_completions"@.len() == 16);
        assert("anthropic_messages"@.len() == 18);
    }
}

/// How an API key is sent.
#[derive(Debug, Clone, Copy, PartialEq, Eq, Structural)]
pub enum ApiKeyAuthScheme {
    Bearer,
    XApiKey,
}

/// The service that tells the balance of an upstream.
#[derive(Debug, Clone, Copy, PartialEq, Eq, Structural)]
pub enum BalanceProvider {
    Auto,
    DeepSeek,
    StepFun,
    SiliconFlowCn,
    SiliconFlowGlobal,
    OpenRouter,
    Novita,
    Zhipu,
    Sub2Api,
    NewApi,
    Unsupported,
}

impl BalanceProvider {
    /// The stored name.
    pub open spec fn name(self) -> Seq<char> {
        match self {
            BalanceProvider::Auto => "auto"@,
            BalanceProvider::DeepSeek => "deepseek"@,
            BalanceProvider::StepFun => "stepfun"@,
            BalanceProvider::SiliconFlowCn => "siliconflow_cn"@,
            BalanceProvider::SiliconFlowGlobal => "siliconflow_global"@,
            BalanceProvider::OpenRouter => "openrouter"@,
            BalanceProvider::Novita => "novita"@,
            BalanceProvider::Zhipu => "zhipu"@,
            BalanceProvider::Sub2Api => "sub2api"@,
            BalanceProvider::NewApi => "newapi"@,
            BalanceProvider::Unsupported => "unsupported"@,
        }
    }

    /// The provider by its name or an alias; `Auto` where the name is not known
    /// here, as that of `Zhipu` is not.
    pub open spec fn of_name(s: Seq<char>) -> Self {
        if s == "deepseek"@ {
            BalanceProvider::DeepSeek
        } else if s == "stepfun"@ {
            BalanceProvider::StepFun
        } else if s == "siliconflow_cn"@ {
            BalanceProvider::SiliconFlowCn
        } else if s == "siliconflow_global"@ {
            BalanceProvider::SiliconFlowGlobal
        } else if s == "openrouter"@ {
            BalanceProvider::OpenRouter
        } else if s == "novita"@ {
            BalanceProvider::Novita
        } else if s == "sub2api"@ {
            BalanceProvider::Sub2Api
        } else if s == "newapi"@ || s == "new-api"@ || s == "oneapi"@ || s == "one-api"@ {
            BalanceProvider::NewApi
        } else if s == "unsupported"@ {
            BalanceProvider::Unsupported
        } else {
            BalanceProvider::Auto
        }
    }

    /// The stored name.
    pub fn as_str(self) -> (r: &'static str)
        ensures
            r@ == self.name(),
    {
        match self {
            BalanceProvider::Auto => "auto",
            BalanceProvider::DeepSeek => "deepseek",
            BalanceProvider::StepFun => "stepfun",
            BalanceProvider::SiliconFlowCn => "siliconflow_cn",
            BalanceProvider::SiliconFlowGlobal => "siliconflow_global",
            BalanceProvider::OpenRouter => "openrouter",
            BalanceProvider::Novita => "novita",
            BalanceProvider::Zhipu => "zhipu",
            BalanceProvider::Sub2Api => "sub2api",
            BalanceProvider::NewApi => "newapi",
            BalanceProvider::Unsupported => "unsupported",
        }
    }

    /// The provider by its name or an alias.
    pub fn from_str(value: &str) -> (r: Self)
        ensures
            r == Self::of_name(value@),
    {
        if text::same(value, "deepseek") {
            BalanceProvider::DeepSeek
        } else if text::same(value, "stepfun") {
            BalanceProvider::StepFun
        } else if text::same(value, "siliconflow_cn") {
            BalanceProvider::SiliconFlowCn
        } else if text::same(value, "siliconflow_global") {
            BalanceProvider::SiliconFlowGlobal
        } else if text::same(value, "openrouter") {
            BalanceProvider::OpenRouter
        } else if text::same(value, "novita") {
            BalanceProvider::Novita
        } else if text::same(value, "sub2api") {
            BalanceProvider::Sub2Api
        } else if text::same(value, "newapi") || text::same(value, "new-api") || text::same(
            value,
            "oneapi",
        ) || text::same(value, "one-api") {
            BalanceProvider::NewApi
        } else if text::same(value, "unsupported") {
            BalanceProvider::Unsupported
        } else {
            BalanceProvider::Auto
        }
    }

    /// The provider that has a name, of all providers.
    pub fn named(value: &str) -> (r: Option<Self>)
        ensures
            match r {
                Some(provider) => provider.name() == value@,
                None => forall|provider: Self| #[trigger] provider.name() != value@,
            },
    {
        if text::same(value, "zhipu") {
            return Some(BalanceProvider::Zhipu);
        }
        let provider: Self = BalanceProvider::from_str(value);
        proof {
            assert forall|any: Self| #[trigger] any.name() == value@ implies any == provider by {
                any.law_name_round_trip(any);
            }
        }
        if text::same(value, provider.as_str()) {
            Some(provider)
        } else {
            None
        }
    }

    /// Every provider but `Zhipu` is what its name reads back as, and no two
    /// providers have the same name.
    pub proof fn law_name_round_trip(self, other: Self)
        ensures
            self != BalanceProvider::Zhipu ==> Self::of_name(self.name()) == self,
            self.name() == other.name() ==> self == other,
    {
        reveal_strlit("auto");
        reveal_strlit("deepseek");
        reveal_strlit("stepfun");
        reveal_strlit("siliconflow_cn");
        reveal_strlit("siliconflow_global");
        reveal_strlit("openrouter");
        reveal_strlit("novita");
        reveal_strlit("zhipu");
        reveal_strlit("sub2api");
        reveal_strlit("newapi");
        reveal_strlit("new-api");
        reveal_strlit("oneapi");
        reveal_strlit("one-api");
        reveal_strlit("unsupported");
        let s = self.name();
        assert("auto"@.len() == 4 && "deepseek"@.len() == 8 && "stepfun"@.len() == 7);
        assert("siliconflow_cn"@.len() == 14 && "siliconflow_global"@.len() == 18);
        assert("openrouter"@.len() == 10 && "zhipu"@.len() == 5 && "unsupported"@.len() == 11);
        assert("sub2api"@.len() == 7 && "new-api"@.len() == 7 && "one-api"@.len() == 7);
        assert("novita"@.len() == 6 && "newapi"@.len() == 6 && "oneapi"@.len() == 6);
        assert("stepfun"@[1] == 't' && "sub2api"@[1] == 'u');
        assert("new-api"@[0] == 'n' && "one-api"@[0] == 'o');
        assert("stepfun"@[0] == 's' && "sub2api"@[0] == 's');
        assert("novita"@[1] == 'o' && "newapi"@[1] == 'e' && "oneapi"@[1] == 'n');
    }
}

/// How a schedule group picks an upstream.
#[derive(Debug, Clone, Copy, PartialEq, Eq, Structural)]
pub enum ScheduleMode {
    Random,
    RoundRobin,
    Failover,
    Fixed,
    ModelMapping,
}

impl ScheduleMode {
    /// The stored name.
    pub open spec fn name(self) -> Seq<char> {
        match self {
            ScheduleMode::Random => "random"@,
            ScheduleMode::RoundRobin => "round_robin"@,
            ScheduleMode::Failover => "failover"@,
            ScheduleMode::Fixed => "fixed"@,
            ScheduleMode::ModelMapping => "model_mapping"@,
        }
    }

    /// The mode of a group without rules by its name or an alias; `Random` where
    /// the name is that of no such mode.
    pub open spec fn of_name(s: Seq<char>) -> Self {
        if s == "round_robin"@ || s == "polling"@ {
            ScheduleMode::RoundRobin
        } else if s == "fixed"@ {
            ScheduleMode::Fixed
        } else if s == "failover"@ {
            ScheduleMode::Failover
        } else {
            ScheduleMode::Random
        }
    }

    /// The stored name.
    pub fn as_str(self) -> (r: &'static str)
        ensures
            r@ == self.name(),
    {
        match self {
            ScheduleMode::Random => "random",
            ScheduleMode::RoundRobin => "round_robin",
            ScheduleMode::Failover => "failover",
            ScheduleMode::Fixed => "fixed",
            ScheduleMode::ModelMapping => "model_mapping",
        }
    }

    /// The mode of a group without rules by its name or an alias.
    pub fn from_str(value: &str) -> (r: Self)
        ensures
            r == Self::of_name(value@),
    {
        if text::same(value, "round_robin") || text::same(value, "polling") {
            ScheduleMode::RoundRobin
        } else if text::same(value, "fixed") {
            ScheduleMode::Fixed
        } else if text::same(value, "failover") {
            ScheduleMode::Failover
        } else {
            ScheduleMode::Random
        }
    }

    /// The mode that has a name, of all modes.
    pub fn named(value: &str) -> (r: Option<Self>)
        ensures
            match r {
                Some(mode) => mode.name() == value@,
                None => forall|mode: Self| #[trigger] mode.name() != value@,
            },
    {
        if text::same(value, "model_mapping") {
            return Some(ScheduleMode::ModelMapping);
        }
        let mode: Self = ScheduleMode::from_str(value);
        proof {
            assert forall|any: Self| #[trigger] any.name() == value@ implies any == mode by {
                any.law_name_round_trip(any);
            }
        }
        if text::same(value, mode.as_str()) {
            Some(mode)
        } else {
            None
        }
    }

    /// Every mode but that of a group with rules is what its name reads back as,
    /// and no two modes have the same name.
    pub proof fn law_name_round_trip(self, other: Self)
        ensures
            self != ScheduleMode::ModelMapping ==> Self::of_name(self.name()) == self,
            self.name() == other.name() ==> self == other,
    {
        reveal_strlit("random");
        reveal_strlit("round_robin");
        reveal_strlit("polling");
        reveal_strlit("failover");
        reveal_strlit("fixed");
        reveal_strlit("model_mapping");
        assert("random"@.len() == 6 && "round_robin"@.len() == 11 && "polling"@.len() == 7);
        assert("failover"@.len() == 8 && "fixed"@.len() == 5 && "model_mapping"@.len() == 13);
    }
}

/// What a route leads to.
#[derive(Debug, Clone, Copy, PartialEq, Eq, Structural)]
pub enum ScheduleRouteTargetKind {
    Group,
    Upstream,
}

/// Which upstream errors are handed to the client as ones that it may retry.
#[derive(Debug, Clone, Copy, PartialEq, Eq, Structural)]
pub enum ErrorRetryPolicy {
    Off,
    Transient,
    All,
}

/// What a model is taken for whose capabilities are not known.
#[derive(Debug, Clone, Copy, PartialEq, Eq, Structural)]
pub enum UnknownModalityPolicy {
    TextOnly,
    Multimodal,
}

/// When prompt caches are kept alive.
#[derive(Debug, Clone, Copy, PartialEq, Eq, Structural)]
pub enum CacheKeepaliveMode {
    Off,
    /// Only where it pays off.
    Smart,
    /// Always.
    Always,
}

impl CacheKeepaliveMode {
    /// The stored name.
    pub open spec fn name(self) -> Seq<char> {
        match self {
            CacheKeepaliveMode::Off => "off"@,
            CacheKeepaliveMode::Smart => "smart"@,
            CacheKeepaliveMode::Always => "always"@,
        }
    }

    /// The stored name.
    pub fn as_str(self) -> (r: &'static str)
        ensures
            r@ == self.name(),
    {
        match self {
            CacheKeepaliveMode::Off => "off",
            CacheKeepaliveMode::Smart => "smart",
            CacheKeepaliveMode::Always => "always",
        }
    }
}

/// How an upstream's prompt caches are kept alive.
#[derive(Debug)]
pub struct UpstreamCacheKeepaliveSettings {
    pub upstream_id: String,
    pub enabled: bool,
    pub mode: CacheKeepaliveMode,
    pub interval_seconds: i64,
    pub max_idle_seconds: i64,
    pub min_cacheable_tokens: i64,
    pub max_cacheable_tokens: i64,
    pub max_active_sessions: i64,
    pub prefer_extended_retention: bool,
}

impl Clone for UpstreamCacheKeepaliveSettings {
    fn clone(&self) -> (r: Self)
        ensures
            r == *self,
    {
        UpstreamCacheKeepaliveSettings {
            upstream_id: self.upstream_id.clone(),
            enabled: self.enabled,
            mode: self.mode,
            interval_seconds: self.interval_seconds,
            max_idle_seconds: self.max_idle_seconds,
            min_cacheable_tokens: self.min_cacheable_tokens,
            max_cacheable_tokens: self.max_cacheable_tokens,
            max_active_sessions: self.max_active_sessions,
            prefer_extended_retention: self.prefer_extended_retention,
        }
    }
}

impl UpstreamCacheKeepaliveSettings {
    /// The settings of an upstream for which none were saved: switched off.
    pub fn new(upstream_id: String) -> (r: Self)
        ensures
            r == (UpstreamCacheKeepaliveSettings {
                upstream_id,
                enabled: false,
                mode: CacheKeepaliveMode::Smart,
                interval_seconds: 240,
                max_idle_seconds: 1800,
                min_cacheable_tokens: 1024,
                max_cacheable_tokens: 200_000,
                max_active_sessions: 8,
                prefer_extended_retention: false,
            }),
    {
        UpstreamCacheKeepaliveSettings {
            upstream_id,
            enabled: false,
            mode: CacheKeepaliveMode::Smart,
            interval_seconds: 240,
            max_idle_seconds: 1800,
            min_cacheable_tokens: 1024,
            max_cacheable_tokens: 200_000,
            max_active_sessions: 8,
            prefer_extended_retention: false,
        }
    }

    /// Whether caches are kept alive at all.
    pub open spec fn active(&self) -> bool {
        self.enabled && self.mode != CacheKeepaliveMode::Off
    }

    /// Whether caches are kept alive at all.
    pub fn is_active(&self) -> (r: bool)
        ensures
            r == self.active(),
    {
        self.enabled && self.mode != CacheKeepaliveMode::Off
    }

    /// The seconds between two keepalives: at least a minute.
    pub open spec fn interval(&self) -> i64 {
        larger(self.interval_seconds, 60)
    }

    /// The seconds without a request after which a session ends: at least a
    /// minute.
    pub open spec fn idle_limit(&self) -> i64 {
        larger(self.max_idle_seconds, 60)
    }

    /// The fewest cached tokens that are kept alive: at least 1024.
    pub open spec fn min_tokens(&self) -> i64 {
        larger(self.min_cacheable_tokens, 1024)
    }

    /// The most cached tokens that are kept alive: at least the fewest.
    pub open spec fn max_tokens(&self) -> i64 {
        larger(self.max_cacheable_tokens, self.min_tokens())
    }
}

/// When an upstream's balance is refreshed, and below which balance an alert
/// is due.
#[derive(Debug)]
pub struct UpstreamBalanceAlertSettings {
    pub upstream_id: String,
    pub enabled: bool,
    pub interval_seconds: i64,
    pub active_interval_seconds: i64,
    pub active_window_seconds: i64,
    pub alert_enabled: bool,
    pub threshold: Double,
    pub alert_active: bool,
    pub last_checked_at: Option<i64>,
}

/// Five, the threshold of an upstream for which none was saved.
pub open spec fn default_threshold() -> Double {
    double::rounded(false, 5, 1)
}

impl UpstreamBalanceAlertSettings {
    /// The settings of an upstream for which none were saved: switched off.
    pub fn new(upstream_id: String) -> (r: Self)
        ensures
            r == (UpstreamBalanceAlertSettings {
                upstream_id,
                enabled: false,
                interval_seconds: 1800,
                active_interval_seconds: 60,
                active_window_seconds: 300,
                alert_enabled: false,
                threshold: default_threshold(),
                alert_active: false,
                last_checked_at: None,
            }),
            r.threshold.wf(),
    {
        UpstreamBalanceAlertSettings {
            upstream_id,
            enabled: false,
            interval_seconds: 1800,
            active_interval_seconds: 60,
            active_window_seconds: 300,
            alert_enabled: false,
            threshold: Double::from_fraction(5, 1),
            alert_active: false,
            last_checked_at: None,
        }
    }
}

/// The multiplier that leaves a price as it is.
pub open spec fn plain_price() -> Double {
    double::rounded(false, 1, 1)
}

/// A server that requests are forwarded to.
#[derive(Debug)]
pub struct Upstream {
    pub id: String,
    pub kind: UpstreamKind,
    pub name: String,
    pub base_url: String,
    pub wire_api: WireApi,
    pub api_key_auth_scheme: ApiKeyAuthScheme,
    pub supports_compact: bool,
    pub filter_chat_server_tools: bool,
    pub proxy_url: Option<String>,
    pub enabled: bool,
    pub priority: i64,
    pub weight: i64,
    /// What the model's price is multiplied by.
    pub price_multiplier: Double,
    pub error_retry_policy: ErrorRetryPolicy,
    /// Whether media are taken out of requests to models that take text alone.
    pub strip_multimodal_for_text_models: bool,
    pub unknown_modality_policy: UnknownModalityPolicy,
    pub balance_provider: BalanceProvider,
    pub chatgpt_account_id: Option<String>,
    pub email: Option<String>,
    pub plan_type: Option<String>,
    pub token_expires_at: Option<i64>,
    pub created_at: Timestamp,
    pub updated_at: Timestamp,
}

/// A copy of an optional string.
pub fn clone_opt(s: &Option<String>) -> (r: Option<String>)
    ensures
        r == *s,
{
    match s {
        Some(v) => Some(v.clone()),
        None => None,
    }
}

impl Clone for Upstream {
    fn clone(&self) -> (r: Self)
        ensures
            r == *self,
    {
        Upstream {
            id: self.id.clone(),
            kind: self.kind,
            name: self.name.clone(),
            base_url: self.base_url.clone(),
            wire_api: self.wire_api,
            api_key_auth_scheme: self.api_key_auth_scheme,
            supports_compact: self.supports_compact,
            filter_chat_server_tools: self.filter_chat_server_tools,
            proxy_url: clone_opt(&self.proxy_url),
            enabled: self.enabled,
            priority: self.priority,
            weight: self.weight,
            price_multiplier: self.price_multiplier,
            error_retry_policy: self.error_retry_policy,
            strip_multimodal_for_text_models: self.strip_multimodal_for_text_models,
            unknown_modality_policy: self.unknown_modality_policy,
            balance_provider: self.balance_provider,
            chatgpt_account_id: clone_opt(&self.chatgpt_account_id),
            email: clone_opt(&self.email),
            plan_type: clone_opt(&self.plan_type),
            token_expires_at: self.token_expires_at,
            created_at: self.created_at,
            updated_at: self.updated_at,
        }
    }
}

impl Upstream {
    /// A relay with an API key, with a given identifier and time.
    pub fn relay(
        id: String,
        now: Timestamp,
        name: String,
        base_url: String,
        wire_api: WireApi,
        supports_compact: bool,
        balance_provider: BalanceProvider,
    ) -> (r: Self)
        ensures
            r == (Upstream {
                id,
                kind: UpstreamKind::RelayApiKey,
                name,
                base_url,
                wire_api,
                api_key_auth_scheme: ApiKeyAuthScheme::Bearer,
                supports_compact,
                filter_chat_server_tools: false,
                proxy_url: None,
                enabled: true,
                priority: 0,
                weight: 1,
                price_multiplier: plain_price(),
                error_retry_policy: ErrorRetryPolicy::Off,
                strip_multimodal_for_text_models: false,
                unknown_modality_policy: UnknownModalityPolicy::TextOnly,
                balance_provider,
                chatgpt_account_id: None,
                email: None,
                plan_type: None,
                token_expires_at: None,
                created_at: now,
                updated_at: now,
            }),
    {
        Upstream {
            id,
            kind: UpstreamKind::RelayApiKey,
            name,
            base_url,
            wire_api,
            api_key_auth_scheme: ApiKeyAuthScheme::Bearer,
            supports_compact,
            filter_chat_server_tools: false,
            proxy_url: None,
            enabled: true,
            priority: 0,
            weight: 1,
            price_multiplier: Double::from_fraction(1, 1),
            error_retry_policy: ErrorRetryPolicy::Off,
            strip_multimodal_for_text_models: false,
            unknown_modality_policy: UnknownModalityPolicy::TextOnly,
            balance_provider,
            chatgpt_account_id: None,
            email: None,
            plan_type: None,
            token_expires_at: None,
            created_at: now,
            updated_at: now,
        }
    }

    /// A relay with an API key, with a fresh identifier, made now.
    pub fn new_relay(
        name: String,
        base_url: String,
        wire_api: WireApi,
        supports_compact: bool,
        balance_provider: BalanceProvider,
    ) -> (r: Self)
        ensures
            r.id@.len() == 36,
            clock::is_now(r.created_at),
            r == (Upstream {
                id: r.id,
                kind: UpstreamKind::RelayApiKey,
                name,
                base_url,
                wire_api,
                api_key_auth_scheme: ApiKeyAuthScheme::Bearer,
                supports_compact,
                filter_chat_server_tools: false,
                proxy_url: None,
                enabled: true,
                priority: 0,
                weight: 1,
                price_multiplier: plain_price(),
                error_retry_policy: ErrorRetryPolicy::Off,
                strip_multimodal_for_text_models: false,
                unknown_modality_policy: UnknownModalityPolicy::TextOnly,
                balance_provider,
                chatgpt_account_id: None,
                email: None,
                plan_type: None,
                token_expires_at: None,
                created_at: r.created_at,
                updated_at: r.created_at,
            }),
    {
        let now: Timestamp = clock::utc_now();
        let id: String = clock::new_uuid();
        Upstream::relay(id, now, name, base_url, wire_api, supports_compact, balance_provider)
    }

    /// A Codex account, with a given identifier and time.
    pub fn codex_oauth(
        id: String,
        now: Timestamp,
        name: String,
        chatgpt_account_id: String,
        email: Option<String>,
        plan_type: Option<String>,
        token_expires_at: Option<i64>,
    ) -> (r: Self)
        ensures
            r.base_url@ == "https://chatgpt.com/backend-api/codex"@,
            r == (Upstream {
                id,
                kind: UpstreamKind::CodexOauth,
                name,
                base_url: r.base_url,
                wire_api: WireApi::Responses,
                api_key_auth_scheme: ApiKeyAuthScheme::Bearer,
                supports_compact: true,
                filter_chat_server_tools: false,
                proxy_url: None,
                enabled: true,
                priority: 10,
                weight: 1,
                price_multiplier: plain_price(),
                error_retry_policy: ErrorRetryPolicy::Off,
                strip_multimodal_for_text_models: false,
                unknown_modality_policy: UnknownModalityPolicy::TextOnly,
                balance_provider: BalanceProvider::Unsupported,
                chatgpt_account_id: Some(chatgpt_account_id),
                email,
                plan_type,
                token_expires_at,
                created_at: now,
                updated_at: now,
            }),
    {
        Upstream {
            id,
            kind: UpstreamKind::CodexOauth,
            name,
            base_url: String::from_str("https://chatgpt.com/backend-api/codex"),
            wire_api: WireApi::Responses,
            api_key_auth_scheme: ApiKeyAuthScheme::Bearer,
            supports_compact: true,
            filter_chat_server_tools: false,
            proxy_url: None,
            enabled: true,
            priority: 10,
            weight: 1,
            price_multiplier: Double::from_fraction(1, 1),
            error_retry_policy: ErrorRetryPolicy::Off,
            strip_multimodal_for_text_models: false,
            unknown_modality_policy: UnknownModalityPolicy::TextOnly,
            balance_provider: BalanceProvider::Unsupported,
            chatgpt_account_id: Some(chatgpt_account_id),
            email,
            plan_type,
            token_expires_at,
            created_at: now,
            updated_at: now,
        }
    }

    /// A Codex account, with a fresh identifier, made now.
    pub fn new_codex_oauth(
        name: String,
        chatgpt_account_id: String,
        email: Option<String>,
        plan_type: Option<String>,
        token_expires_at: Option<i64>,
    ) -> (r: Self)
        ensures
            r.id@.len() == 36,
            clock::is_now(r.created_at),
            r.base_url@ == "https://chatgpt.com/backend-api/codex"@,
            r == (Upstream {
                id: r.id,
                kind: UpstreamKind::CodexOauth,
                name,
                base_url: r.base_url,
                wire_api: WireApi::Responses,
                api_key_auth_scheme: ApiKeyAuthScheme::Bearer,
                supports_compact: true,
                filter_chat_server_tools: false,
                proxy_url: None,
                enabled: true,
                priority: 10,
                weight: 1,
                price_multiplier: plain_price(),
                error_retry_policy: ErrorRetryPolicy::Off,
                strip_multimodal_for_text_models: false,
                unknown_modality_policy: UnknownModalityPolicy::TextOnly,
                balance_provider: BalanceProvider::Unsupported,
                chatgpt_account_id: Some(chatgpt_account_id),
                email,
                plan_type,
                token_expires_at,
                created_at: r.created_at,
                updated_at: r.created_at,
            }),
    {
        let now: Timestamp = clock::utc_now();
        let id: String = clock::new_uuid();
        Upstream::codex_oauth(id, now, name, chatgpt_account_id, email, plan_type, token_expires_at)
    }
}

/// A group of upstreams among which requests are scheduled.
#[derive(Debug, Clone)]
pub struct ScheduleGroup {
    pub id: String,
    pub name: String,
    pub mode: ScheduleMode,
    pub use_all_upstreams: bool,
    pub fixed_target_kind: ScheduleRouteTargetKind,
    pub fixed_upstream_id: Option<String>,
    pub fixed_group_id: Option<String>,
    pub failure_threshold: i64,
    pub failover_on_balance: bool,
    pub failover_on_network: bool,
    pub failover_on_5xx: bool,
    pub affinity_ttl_seconds: i64,
    pub created_at: Timestamp,
    pub updated_at: Timestamp,
}

impl ScheduleGroup {
    /// A group with the default settings, with a given identifier and time.
    pub fn with_id(id: String, now: Timestamp, name: String) -> (r: Self)
        ensures
            r == (ScheduleGroup {
                id,
                name,
                mode: ScheduleMode::Failover,
                use_all_upstreams: true,
                fixed_target_kind: ScheduleRouteTargetKind::Upstream,
                fixed_upstream_id: None,
                fixed_group_id: None,
                failure_threshold: 1,
                failover_on_balance: true,
                failover_on_network: true,
                failover_on_5xx: true,
                affinity_ttl_seconds: 1800,
                created_at: now,
                updated_at: now,
            }),
    {
        ScheduleGroup {
            id,
            name,
            mode: ScheduleMode::Failover,
            use_all_upstreams: true,
            fixed_target_kind: ScheduleRouteTargetKind::Upstream,
            fixed_upstream_id: None,
            fixed_group_id: None,
            failure_threshold: 1,
            failover_on_balance: true,
            failover_on_network: true,
            failover_on_5xx: true,
            affinity_ttl_seconds: 1800,
            created_at: now,
            updated_at: now,
        }
    }

    /// A group with the default settings and a fresh identifier, made now.
    pub fn new(name: String) -> (r: Self)
        ensures
            r.id@.len() == 36,
            clock::is_now(r.created_at),
            r == (ScheduleGroup {
                id: r.id,
                name,
                mode: ScheduleMode::Failover,
                use_all_upstreams: true,
                fixed_target_kind: ScheduleRouteTargetKind::Upstream,
                fixed_upstream_id: None,
                fixed_group_id: None,
                failure_threshold: 1,
                failover_on_balance: true,
                failover_on_network: true,
                failover_on_5xx: true,
                affinity_ttl_seconds: 1800,
                created_at: r.created_at,
                updated_at: r.created_at,
            }),
    {
        let now: Timestamp = clock::utc_now();
        let id: String = clock::new_uuid();
        ScheduleGroup::with_id(id, now, name)
    }
}

/// An upstream's place in a schedule group.
#[derive(Debug, Clone)]
pub struct ScheduleGroupMember {
    pub group_id: String,
    pub upstream_id: String,
    pub enabled: bool,
    pub priority: i64,
    pub weight: i64,
    pub created_at: Timestamp,
    pub updated_at: Timestamp,
}

impl ScheduleGroupMember {
    /// A member at a given time.
    pub fn at(group_id: String, upstream_id: String, now: Timestamp) -> (r: Self)
        ensures
            r == (ScheduleGroupMember {
                group_id,
                upstream_id,
                enabled: true,
                priority: 0,
                weight: 1,
                created_at: now,
                updated_at: now,
            }),
    {
        ScheduleGroupMember {
            group_id,
            upstream_id,
            enabled: true,
            priority: 0,
            weight: 1,
            created_at: now,
            updated_at: now,
        }
    }

    /// A member, made now.
    pub fn new(group_id: String, upstream_id: String) -> (r: Self)
        ensures
            clock::is_now(r.created_at),
            r == (ScheduleGroupMember {
                group_id,
                upstream_id,
                enabled: true,
                priority: 0,
                weight: 1,
                created_at: r.created_at,
                updated_at: r.created_at,
            }),
    {
        ScheduleGroupMember::at(group_id, upstream_id, clock::utc_now())
    }
}

/// Another group's place in a schedule group.
#[derive(Debug, Clone)]
pub struct ScheduleGroupChild {
    pub group_id: String,
    pub target_group_id: String,
    pub enabled: bool,
}

/// A rule that sends requests for some models to a target.
#[derive(Debug, Clone)]
pub struct ScheduleRouteRule {
    pub id: String,
    pub group_id: String,
    pub name: String,
    pub pattern: String,
    pub enabled: bool,
    pub target_kind: ScheduleRouteTargetKind,
    pub target_group_id: Option<String>,
    pub target_upstream_id: Option<String>,
    pub target_model: Option<String>,
    pub priority: i64,
}

/// The tokens that requests used.
#[derive(Debug, Clone, Copy, PartialEq, Eq, Structural)]
pub struct TokenUsage {
    pub input_tokens: i64,
    pub output_tokens: i64,
    pub cache_read_tokens: i64,
    pub cache_creation_tokens: i64,
    pub total_tokens: i64,
}

impl TokenUsage {
    /// Whether nothing was used.
    pub open spec fn is_nothing(self) -> bool {
        self == (TokenUsage {
            input_tokens: 0,
            output_tokens: 0,
            cache_read_tokens: 0,
            cache_creation_tokens: 0,
            total_tokens: 0,
        })
    }
}

impl Default for TokenUsage {
    fn default() -> (r: Self)
        ensures
            r.is_nothing(),
    {
        TokenUsage {
            input_tokens: 0,
            output_tokens: 0,
            cache_read_tokens: 0,
            cache_creation_tokens: 0,
            total_tokens: 0,
        }
    }
}

/// The larger of two numbers.
pub open spec fn larger(a: i64, b: i64) -> i64 {
    if a >= b {
        a
    } else {
        b
    }
}

/// The larger of two numbers.
pub fn max_of(a: i64, b: i64) -> (r: i64)
    ensures
        r == larger(a, b),
{
    if a >= b {
        a
    } else {
        b
    }
}

impl TokenUsage {
    /// No tokens of any kind.
    pub open spec fn is_none(self) -> bool {
        &&& self.input_tokens == 0
        &&& self.output_tokens == 0
        &&& self.cache_read_tokens == 0
        &&& self.cache_creation_tokens == 0
        &&& self.total_tokens == 0
    }

    /// The sum of the four kinds of tokens.
    pub open spec fn sum(self) -> int {
        self.input_tokens + self.output_tokens + self.cache_read_tokens
            + self.cache_creation_tokens
    }

    /// Whether the sum and the sums on the way to it are 64-bit integers.
    pub open spec fn sum_fits(self) -> bool {
        &&& i64::MIN <= self.input_tokens + self.output_tokens <= i64::MAX
        &&& i64::MIN <= self.input_tokens + self.output_tokens + self.cache_read_tokens <= i64::MAX
        &&& i64::MIN <= self.sum() <= i64::MAX
    }

    /// The usage with its total filled in.
    pub open spec fn finished(self) -> Self {
        TokenUsage {
            total_tokens: if self.total_tokens == 0 {
                self.sum() as i64
            } else {
                self.total_tokens
            },
            ..self
        }
    }

    /// Whether the total is there or can be filled in.
    pub fn has_total(&self) -> (r: bool)
        ensures
            r == (self.total_tokens == 0 ==> self.sum_fits()),
    {
        if self.total_tokens != 0 {
            return true;
        }
        match self.input_tokens.checked_add(self.output_tokens) {
            Some(first) => match first.checked_add(self.cache_read_tokens) {
                Some(second) => second.checked_add(self.cache_creation_tokens).is_some(),
                None => false,
            },
            None => false,
        }
    }

    /// The larger count of each kind.
    pub open spec fn joined(self, other: Self) -> Self {
        TokenUsage {
            input_tokens: larger(self.input_tokens, other.input_tokens),
            output_tokens: larger(self.output_tokens, other.output_tokens),
            cache_read_tokens: larger(self.cache_read_tokens, other.cache_read_tokens),
            cache_creation_tokens: larger(self.cache_creation_tokens, other.cache_creation_tokens),
            total_tokens: larger(self.total_tokens, other.total_tokens),
        }
    }

    /// Fills in the total where there is none.
    pub fn finish(&mut self)
        requires
            old(self).total_tokens == 0 ==> old(self).sum_fits(),
        ensures
            *final(self) == old(self).finished(),
    {
        if self.total_tokens == 0 {
            self.total_tokens = self.input_tokens + self.output_tokens + self.cache_read_tokens
                + self.cache_creation_tokens;
        }
    }

    /// Takes the larger count of each kind and fills in the total.
    pub fn merge_max(&mut self, other: &Self)
        requires
            old(self).joined(*other).total_tokens == 0 ==> old(self).joined(*other).sum_fits(),
        ensures
            *final(self) == old(self).joined(*other).finished(),
    {
        self.input_tokens = max_of(self.input_tokens, other.input_tokens);
        self.output_tokens = max_of(self.output_tokens, other.output_tokens);
        self.cache_read_tokens = max_of(self.cache_read_tokens, other.cache_read_tokens);
        self.cache_creation_tokens = max_of(
            self.cache_creation_tokens,
            other.cache_creation_tokens,
        );
        self.total_tokens = max_of(self.total_tokens, other.total_tokens);
        self.finish();
    }

    /// The input tokens that were read from a cache.
    pub fn cached_input_tokens(&self) -> (r: i64)
        ensures
            r == self.cache_read_tokens,
    {
        self.cache_read_tokens
    }

    /// The input tokens that came from no cache. Some servers count the cached
    /// tokens within the input and some do not; they are taken off only where
    /// the input is large enough to hold them.
    pub open spec fn uncached(self) -> int {
        let cached = self.cache_read_tokens + self.cache_creation_tokens;
        if self.input_tokens >= cached {
            self.input_tokens - cached
        } else {
            self.input_tokens as int
        }
    }

    /// The input tokens that came from no cache.
    pub fn uncached_input_tokens(&self) -> (r: i64)
        requires
            i64::MIN <= self.cache_read_tokens + self.cache_creation_tokens <= i64::MAX,
            i64::MIN <= self.uncached() <= i64::MAX,
        ensures
            r == self.uncached(),
    {
        let cached: i64 = self.cache_read_tokens + self.cache_creation_tokens;
        if self.input_tokens >= cached {
            self.input_tokens - cached
        } else {
            self.input_tokens
        }
    }

    /// Filling in the total twice is the same as once, and merging a usage
    /// with itself only fills in its total.
    pub proof fn law_finish_idempotent(self)
        requires
            self.total_tokens == 0 ==> self.sum_fits(),
        ensures
            self.finished().finished() == self.finished(),
            self.joined(self).finished() == self.finished(),
    {
    }

    /// A merge does not depend on the order, and loses no count.
    pub proof fn law_merge(self, other: Self)
        ensures
            self.joined(other) == other.joined(self),
            self.joined(other).input_tokens >= self.input_tokens,
            self.joined(other).output_tokens >= self.output_tokens,
            self.joined(other).cache_read_tokens >= self.cache_read_tokens,
            self.joined(other).cache_creation_tokens >= self.cache_creation_tokens,
            self.joined(other).total_tokens >= self.total_tokens,
    {
    }

    /// The uncached input is never more than the input, where no count is
    /// negative.
    pub proof fn law_uncached_within_input(self)
        requires
            0 <= self.cache_read_tokens,
            0 <= self.cache_creation_tokens,
            0 <= self.input_tokens,
        ensures
            0 <= self.uncached() <= self.input_tokens,
    {
    }
}

/// One request in the log.
#[derive(Debug, Clone)]
pub struct RequestLog {
    pub ts: Option<Timestamp>,
    pub upstream_id: Option<String>,
    pub upstream_name: Option<String>,
    pub endpoint: String,
    pub model: Option<String>,
    pub reasoning_effort: Option<String>,
    pub status: i64,
    pub usage: TokenUsage,
    pub estimated_cost_usd: Option<Double>,
    pub duration_ms: i64,
    pub first_token_ms: Option<i64>,
    pub error: Option<String>,
}

/// The totals of the dashboard.
#[derive(Debug, Clone, Copy)]
pub struct DashboardStats {
    pub total_requests: i64,
    pub total_usage: TokenUsage,
    pub today_requests: i64,
    pub today_usage: TokenUsage,
}

impl Default for DashboardStats {
    fn default() -> (r: Self)
        ensures
            r.total_requests == 0,
            r.total_usage.is_nothing(),
            r.today_requests == 0,
            r.today_usage.is_nothing(),
    {
        DashboardStats {
            total_requests: 0,
            total_usage: TokenUsage::default(),
            today_requests: 0,
            today_usage: TokenUsage::default(),
        }
    }
}

/// What is known of the database.
#[derive(Debug, Clone)]
pub struct DatabaseInfo {
    pub path: String,
    pub main_file_bytes: u64,
    pub wal_file_bytes: u64,
    pub shm_file_bytes: u64,
    pub page_count: i64,
    pub page_size: i64,
    pub freelist_count: i64,
    pub request_log_count: i64,
}

impl Default for DatabaseInfo {
    fn default() -> (r: Self)
        ensures
            r.path@.len() == 0,
            r.main_file_bytes == 0,
            r.wal_file_bytes == 0,
            r.shm_file_bytes == 0,
            r.page_count == 0,
            r.page_size == 0,
            r.freelist_count == 0,
            r.request_log_count == 0,
    {
        DatabaseInfo {
            path: String::new(),
            main_file_bytes: 0,
            wal_file_bytes: 0,
            shm_file_bytes: 0,
            page_count: 0,
            page_size: 0,
            freelist_count: 0,
            request_log_count: 0,
        }
    }
}

/// The usage of one upstream.
#[derive(Debug, Clone)]
pub struct ProviderStats {
    pub upstream_id: String,
    pub upstream_name: String,
    pub requests: i64,
    pub usage: TokenUsage,
}

impl Default for ProviderStats {
    fn default() -> (r: Self)
        ensures
            r.upstream_id@.len() == 0,
            r.upstream_name@.len() == 0,
            r.requests == 0,
            r.usage.is_nothing(),
    {
        ProviderStats {
            upstream_id: String::new(),
            upstream_name: String::new(),
            requests: 0,
            usage: TokenUsage::default(),
        }
    }
}

/// The usage of one model.
#[derive(Debug, Clone)]
pub struct ModelUsageStats {
    pub upstream_id: Option<String>,
    pub model: Option<String>,
    pub usage: TokenUsage,
}

impl Default for ModelUsageStats {
    fn default() -> (r: Self)
        ensures
            r.upstream_id is None,
            r.model is None,
            r.usage.is_nothing(),
    {
        ModelUsageStats {
            upstream_id: None,
            model: None,
            usage: TokenUsage::default(),
        }
    }
}

/// The price of a model.
#[derive(Debug, Clone)]
pub struct ModelPrice {
    pub provider_id: String,
    pub provider_name: String,
    pub model_id: String,
    pub model_name: String,
    pub input_usd_per_million: Option<Double>,
    pub cached_input_usd_per_million: Option<Double>,
    pub cache_write_usd_per_million: Option<Double>,
    pub output_usd_per_million: Option<Double>,
    pub currency: String,
    pub source: String,
    pub official: bool,
    pub fetched_at: i64,
    pub raw_json: Option<String>,
}

impl Default for ModelPrice {
    fn default() -> (r: Self)
        ensures
            r.provider_id@.len() == 0,
            r.provider_name@.len() == 0,
            r.model_id@.len() == 0,
            r.model_name@.len() == 0,
            r.input_usd_per_million is None,
            r.cached_input_usd_per_million is None,
            r.cache_write_usd_per_million is None,
            r.output_usd_per_million is None,
            r.currency@.len() == 0,
            r.source@.len() == 0,
            !r.official,
            r.fetched_at == 0,
            r.raw_json is None,
    {
        ModelPrice {
            provider_id: String::new(),
            provider_name: String::new(),
            model_id: String::new(),
            model_name: String::new(),
            input_usd_per_million: None,
            cached_input_usd_per_million: None,
            cache_write_usd_per_million: None,
            output_usd_per_million: None,
            currency: String::new(),
            source: String::new(),
            official: false,
            fetched_at: 0,
            raw_json: None,
        }
    }
}

/// The used share of a Codex account's quota.
#[derive(Debug, Clone)]
pub struct QuotaSnapshot {
    pub upstream_id: String,
    pub used_5h_percent: Option<Double>,
    pub reset_5h_seconds: Option<i64>,
    pub window_5h_minutes: Option<i64>,
    pub used_7d_percent: Option<Double>,
    pub reset_7d_seconds: Option<i64>,
    pub window_7d_minutes: Option<i64>,
    pub fetched_at: i64,
}

impl Default for QuotaSnapshot {
    fn default() -> (r: Self)
        ensures
            r.upstream_id@.len() == 0,
            r.used_5h_percent is None,
            r.reset_5h_seconds is None,
            r.window_5h_minutes is None,
            r.used_7d_percent is None,
            r.reset_7d_seconds is None,
            r.window_7d_minutes is None,
            r.fetched_at == 0,
    {
        QuotaSnapshot {
            upstream_id: String::new(),
            used_5h_percent: None,
            reset_5h_seconds: None,
            window_5h_minutes: None,
            used_7d_percent: None,
            reset_7d_seconds: None,
            window_7d_minutes: None,
            fetched_at: 0,
        }
    }
}

/// The balance of an upstream at a time.
#[derive(Debug, Clone)]
pub struct BalanceSnapshot {
    pub upstream_id: String,
    pub provider: String,
    pub remaining: Option<Double>,
    pub total: Option<Double>,
    pub used: Option<Double>,
    pub unit: Option<String>,
    pub is_valid: bool,
    pub message: Option<String>,
    pub fetched_at: i64,
}

impl Default for BalanceSnapshot {
    fn default() -> (r: Self)
        ensures
            r.upstream_id@.len() == 0,
            r.provider@.len() == 0,
            r.remaining is None,
            r.total is None,
            r.used is None,
            r.unit is None,
            !r.is_valid,
            r.message is None,
            r.fetched_at == 0,
    {
        BalanceSnapshot {
            upstream_id: String::new(),
            provider: String::new(),
            remaining: None,
            total: None,
            used: None,
            unit: None,
            is_valid: false,
            message: None,
            fetched_at: 0,
        }
    }
}

/// A key that others may use for a limited time or amount.
#[derive(Debug, Clone)]
pub struct TemporaryAccessKey {
    pub id: String,
    pub name: String,
    pub key_value: String,
    pub enabled: bool,
    pub request_limit: Option<i64>,
    pub requests_used: i64,
    pub token_limit: Option<i64>,
    pub tokens_used: i64,
    pub expires_at: Option<i64>,
}

impl TemporaryAccessKey {
    /// An enabled key of which nothing is used yet.
    pub fn new(
        id: String,
        name: String,
        key_value: String,
        request_limit: Option<i64>,
        token_limit: Option<i64>,
        expires_at: Option<i64>,
    ) -> (r: Self)
        ensures
            r == (TemporaryAccessKey {
                id,
                name,
                key_value,
                enabled: true,
                request_limit,
                requests_used: 0,
                token_limit,
                tokens_used: 0,
                expires_at,
            }),
    {
        TemporaryAccessKey {
            id,
            name,
            key_value,
            enabled: true,
            request_limit,
            requests_used: 0,
            token_limit,
            tokens_used: 0,
            expires_at,
        }
    }
}

/// Settings keep caches alive exactly where they are switched on and their
/// mode is not off. An interval and an idle limit of a minute or more, and a
/// count of cached tokens of 1024 or more, are taken as they were set; less is
/// raised to that. The most tokens are never fewer than the fewest.
pub proof fn law_keepalive_settings_have_lower_bounds(s: &UpstreamCacheKeepaliveSettings)
    ensures
        !s.enabled || s.mode == CacheKeepaliveMode::Off ==> !s.active(),
        s.enabled && (s.mode == CacheKeepaliveMode::Always || s.mode == CacheKeepaliveMode::Smart)
            ==> s.active(),
        s.interval_seconds >= 60 ==> s.interval() == s.interval_seconds,
        s.interval_seconds < 60 ==> s.interval() == 60,
        s.max_idle_seconds >= 60 ==> s.idle_limit() == s.max_idle_seconds,
        s.max_idle_seconds < 60 ==> s.idle_limit() == 60,
        s.min_cacheable_tokens >= 1024 ==> s.min_tokens() == s.min_cacheable_tokens,
        s.min_cacheable_tokens < 1024 ==> s.min_tokens() == 1024,
        s.max_cacheable_tokens >= s.min_tokens() ==> s.max_tokens() == s.max_cacheable_tokens,
        s.max_tokens() >= s.min_tokens() >= 1024,
{
}

/// A total that is there stays; where there is none it is the sum of the four
/// counts. The counts themselves stay.
pub proof fn law_total_is_the_sum_of_the_counts(u: TokenUsage)
    requires
        u.total_tokens == 0 ==> u.sum_fits(),
    ensures
        u.total_tokens != 0 ==> u.finished() == u,
        u.total_tokens == 0 ==> u.finished().total_tokens == u.input_tokens + u.output_tokens
            + u.cache_read_tokens + u.cache_creation_tokens,
        u.finished().input_tokens == u.input_tokens,
        u.finished().output_tokens == u.output_tokens,
        u.finished().cache_read_tokens == u.cache_read_tokens,
        u.finished().cache_creation_tokens == u.cache_creation_tokens,
{
}

/// Merging takes, of each kind, a count that is one of the two and no less
/// than either; in which order they are merged does not matter.
pub proof fn law_merge_takes_the_larger_counts(a: TokenUsage, b: TokenUsage)
    ensures
        a.joined(b) == b.joined(a),
        a.joined(b).input_tokens >= a.input_tokens && a.joined(b).input_tokens >= b.input_tokens,
        a.joined(b).input_tokens == a.input_tokens || a.joined(b).input_tokens == b.input_tokens,
        a.joined(b).output_tokens >= a.output_tokens && a.joined(b).output_tokens
            >= b.output_tokens,
        a.joined(b).output_tokens == a.output_tokens || a.joined(b).output_tokens
            == b.output_tokens,
        a.joined(b).cache_read_tokens >= a.cache_read_tokens && a.joined(b).cache_read_tokens
            >= b.cache_read_tokens,
        a.joined(b).cache_read_tokens == a.cache_read_tokens || a.joined(b).cache_read_tokens
            == b.cache_read_tokens,
        a.joined(b).cache_creation_tokens >= a.cache_creation_tokens && a.joined(
            b,
        ).cache_creation_tokens >= b.cache_creation_tokens,
        a.joined(b).cache_creation_tokens == a.cache_creation_tokens || a.joined(
            b,
        ).cache_creation_tokens == b.cache_creation_tokens,
        a.joined(b).total_tokens >= a.total_tokens && a.joined(b).total_tokens >= b.total_tokens,
        a.joined(b).total_tokens == a.total_tokens || a.joined(b).total_tokens == b.total_tokens,
{
}

/// The tokens from a cache and those from none add up to the input where the
/// input holds them; where it cannot hold them, none is taken off it.
pub proof fn law_cached_tokens_are_taken_off_the_input(u: TokenUsage)
    ensures
        u.cache_read_tokens + u.cache_creation_tokens <= u.input_tokens ==> u.uncached()
            + u.cache_read_tokens + u.cache_creation_tokens == u.input_tokens,
        u.cache_read_tokens + u.cache_creation_tokens > u.input_tokens ==> u.uncached()
            == u.input_tokens,
{
}

} // verus!
