//! The test bench: what is asked of which upstream, and what is kept of the
//! answers.

pub mod har;
pub mod parameters;

use crate::active;
use crate::clock;
use crate::clock::{CivilTime, Timestamp};
use crate::float64::Double;
use crate::json::{Json, JsonView};
use crate::models;
use crate::models::{
    BalanceProvider, ScheduleGroup, TokenUsage, Upstream, UpstreamKind, WireApi,
};
use crate::number;
use crate::text;
use parameters::{ModelTestMessage, ModelTestParams, TestSettings};
use vstd::prelude::*;

verus! {

/// The name under which a temporary upstream is recorded.
pub const CUSTOM_UPSTREAM_NAME: &'static str = "临时上游";

/// Which part of the bench a request belongs to.
#[derive(Debug, Clone, Copy, PartialEq, Eq, Structural)]
pub enum ModelTestKind {
    Single,
    Chat,
}

/// Where requests go: to one upstream, through a schedule group, or to an
/// address that was typed in.
#[derive(Debug, Clone, Copy, PartialEq, Eq, Structural)]
pub enum TargetMode {
    Direct,
    Scheduler,
    Custom,
}

impl TargetMode {
    /// The label.
    pub fn label(self) -> (r: &'static str)
        ensures
            r@ == match self {
                TargetMode::Direct => "上游"@,
                TargetMode::Scheduler => "调度组"@,
                TargetMode::Custom => "临时上游"@,
            },
    {
        match self {
            TargetMode::Direct => "上游",
            TargetMode::Scheduler => "调度组",
            TargetMode::Custom => "临时上游",
        }
    }
}

/// Who said something in a conversation.
#[derive(Debug, Clone, Copy, PartialEq, Eq, Structural)]
pub enum ChatRole {
    User,
    Assistant,
}

/// A part of an answer, while it comes in.
#[derive(Debug)]
pub enum StreamPart {
    Text(String),
    Reasoning(String),
}

/// How a request ended.
pub struct ModelTestOutcome {
    pub upstream_name: Option<String>,
    pub endpoint: String,
    pub model: String,
    pub stream: bool,
    pub status: i64,
    pub error: Option<String>,
    pub duration_ms: i64,
    pub first_token_ms: Option<i64>,
    pub usage: TokenUsage,
    pub estimated_cost_usd: Option<Double>,
    pub output_text: String,
    pub reasoning_text: String,
    /// The exchange as an entry of an archive, where it was recorded.
    pub raw: Option<Json>,
}

/// Whether a request succeeded: without an error, with a status that says so.
pub open spec fn succeeded(error: Option<String>, status: i64) -> bool {
    error is None && 200 <= status < 300
}

impl ModelTestOutcome {
    /// Whether the request succeeded.
    pub fn is_success(&self) -> (r: bool)
        ensures
            r == succeeded(self.error, self.status),
    {
        self.error.is_none() && 200 <= self.status && self.status < 300
    }
}

/// What is kept of a request.
pub struct ModelTestRecord {
    pub finished_at: Timestamp,
    pub upstream_name: Option<String>,
    pub endpoint: String,
    pub model: String,
    pub stream: bool,
    pub status: i64,
    pub error: Option<String>,
    pub duration_ms: i64,
    pub first_token_ms: Option<i64>,
    pub total_tokens: i64,
    pub estimated_cost_usd: Option<Double>,
    pub raw: Option<Json>,
}

/// What a recorded exchange is.
pub open spec fn exchange(raw: Option<Json>) -> Option<JsonView> {
    match raw {
        Some(v) => Some(v.view()),
        None => None,
    }
}

impl ModelTestRecord {
    /// Whether this is what is kept of a request that ended at some time.
    pub open spec fn is_of(&self, outcome: &ModelTestOutcome, finished_at: Timestamp) -> bool {
        &&& self.finished_at == finished_at
        &&& self.upstream_name == outcome.upstream_name
        &&& self.endpoint == outcome.endpoint
        &&& self.model == outcome.model
        &&& self.stream == outcome.stream
        &&& self.status == outcome.status
        &&& self.error == outcome.error
        &&& self.duration_ms == outcome.duration_ms
        &&& self.first_token_ms == outcome.first_token_ms
        &&& self.total_tokens == outcome.usage.total_tokens
        &&& self.estimated_cost_usd == outcome.estimated_cost_usd
        &&& exchange(self.raw) == exchange(outcome.raw)
    }

    /// What is kept of a request that ended at some time.
    pub fn from_outcome(outcome: &ModelTestOutcome, finished_at: Timestamp) -> (r: Self)
        ensures
            r.is_of(outcome, finished_at),
    {
        ModelTestRecord {
            finished_at,
            upstream_name: models::clone_opt(&outcome.upstream_name),
            endpoint: outcome.endpoint.clone(),
            model: outcome.model.clone(),
            stream: outcome.stream,
            status: outcome.status,
            error: models::clone_opt(&outcome.error),
            duration_ms: outcome.duration_ms,
            first_token_ms: outcome.first_token_ms,
            total_tokens: outcome.usage.total_tokens,
            estimated_cost_usd: outcome.estimated_cost_usd,
            raw: match &outcome.raw {
                Some(raw) => Some(raw.copy()),
                None => None,
            },
        }
    }
}

/// A message of the conversation.
pub struct ChatEntry {
    pub role: ChatRole,
    pub text: String,
    pub reasoning: String,
    pub error: bool,
    /// What is kept of the request that this message answers.
    pub record: Option<ModelTestRecord>,
}

/// The request of the single test.
pub struct SingleResult {
    /// When the request was sent, while it runs.
    pub started: Option<u128>,
    pub outcome: Option<ModelTestOutcome>,
    pub live_text: String,
    pub live_reasoning: String,
}

/// The state of the test bench.
pub struct ModelTestUi {
    pub target_mode: TargetMode,
    pub selected_upstream_id: Option<String>,
    pub selected_group_id: Option<String>,
    pub custom_base_url: String,
    pub custom_api_key: String,
    pub custom_wire_api: WireApi,
    pub fetched_models: Vec<String>,
    pub fetched_for_upstream: Option<String>,
    pub models_fetching: bool,
    pub settings: TestSettings,
    pub prompt: String,
    pub single_result: SingleResult,
    pub chat_messages: Vec<ChatEntry>,
    pub chat_input: String,
    pub chat_running: bool,
    pub chat_started: Option<u128>,
    pub chat_live_text: String,
    pub chat_live_reasoning: String,
    pub history: Vec<ModelTestRecord>,
}

/// Where a request goes.
#[derive(Debug)]
pub enum ModelTestTarget {
    Scheduler { group_id: Option<String> },
    Direct { upstream: Upstream },
    Custom { upstream: Upstream, api_key: String },
}

/// What became of a press on the button.
pub enum Sending {
    /// Nothing was to be sent.
    Nothing,
    /// Nothing was sent, and why.
    Refused(String),
    /// A request goes out.
    Sent { target: ModelTestTarget, params: ModelTestParams },
}

/// The place of the first enabled upstream, of a given identifier where one is
/// given, from some place on.
pub open spec fn enabled_place(upstreams: Seq<Upstream>, id: Option<Seq<char>>, from: int) -> Option<
    int,
>
    decreases upstreams.len() - from,
{
    if from < 0 || from >= upstreams.len() {
        None
    } else if upstreams[from].enabled && (id matches Some(wanted) ==> upstreams[from].id@
        == wanted) {
        Some(from)
    } else {
        enabled_place(upstreams, id, from + 1)
    }
}

proof fn lemma_enabled_place(upstreams: Seq<Upstream>, id: Option<Seq<char>>, from: int)
    requires
        0 <= from,
    ensures
        enabled_place(upstreams, id, from) matches Some(i) ==> from <= i < upstreams.len()
            && upstreams[i].enabled && (id matches Some(wanted) ==> upstreams[i].id@ == wanted),
    decreases upstreams.len() - from,
{
    if from < upstreams.len() {
        lemma_enabled_place(upstreams, id, from + 1);
    }
}

fn find_enabled<'a>(upstreams: &'a Vec<Upstream>, id: Option<&str>) -> (r: Option<&'a Upstream>)
    ensures
        match (
            r,
            enabled_place(
                upstreams@,
                match id {
                    Some(wanted) => Some(wanted@),
                    None => None,
                },
                0,
            ),
        ) {
            (Some(found), Some(i)) => 0 <= i < upstreams@.len() && *found == upstreams@[i],
            (None, None) => true,
            _ => false,
        },
{
    let ghost wanted: Option<Seq<char>> = match id {
        Some(wanted) => Some(wanted@),
        None => None,
    };
    let mut i: usize = 0;
    while i < upstreams.len()
        invariant
            i <= upstreams@.len(),
            wanted == (match id {
                Some(wanted) => Some(wanted@),
                None => None,
            }),
            enabled_place(upstreams@, wanted, 0) == enabled_place(upstreams@, wanted, i as int),
        decreases upstreams@.len() - i,
    {
        if upstreams[i].enabled {
            let fits: bool = match id {
                Some(id) => text::same(upstreams[i].id.as_str(), id),
                None => true,
            };
            if fits {
                return Some(&upstreams[i]);
            }
        }
        i = i + 1;
    }
    None
}

impl ModelTestUi {
    /// The place of the upstream that is tested: the chosen one, as long as it
    /// is enabled.
    pub open spec fn target_place(&self, upstreams: Seq<Upstream>) -> Option<int> {
        match self.selected_upstream_id {
            Some(id) => enabled_place(upstreams, Some(id@), 0),
            None => None,
        }
    }

    /// The bench before anything was done.
    pub fn new() -> (r: Self)
        ensures
            r.target_mode == TargetMode::Direct,
            r.selected_upstream_id is None,
            r.selected_group_id is None,
            r.custom_base_url@.len() == 0,
            r.custom_api_key@.len() == 0,
            r.custom_wire_api == WireApi::ChatCompletions,
            r.fetched_models@.len() == 0,
            r.fetched_for_upstream is None,
            !r.models_fetching,
            r.settings.is_initial(),
            r.prompt@ == "请只回复: pong"@,
            r.single_result.started is None,
            r.single_result.outcome is None,
            r.single_result.live_text@.len() == 0,
            r.single_result.live_reasoning@.len() == 0,
            r.chat_messages@.len() == 0,
            r.chat_input@.len() == 0,
            !r.chat_running,
            r.chat_started is None,
            r.chat_live_text@.len() == 0,
            r.chat_live_reasoning@.len() == 0,
            r.history@.len() == 0,
    {
        ModelTestUi {
            target_mode: TargetMode::Direct,
            selected_upstream_id: None,
            selected_group_id: None,
            custom_base_url: String::new(),
            custom_api_key: String::new(),
            custom_wire_api: WireApi::ChatCompletions,
            fetched_models: Vec::new(),
            fetched_for_upstream: None,
            models_fetching: false,
            settings: TestSettings::new(),
            prompt: "请只回复: pong".to_string(),
            single_result: SingleResult {
                started: None,
                outcome: None,
                live_text: String::new(),
                live_reasoning: String::new(),
            },
            chat_messages: Vec::new(),
            chat_input: String::new(),
            chat_running: false,
            chat_started: None,
            chat_live_text: String::new(),
            chat_live_reasoning: String::new(),
            history: Vec::new(),
        }
    }

    /// Whether a request runs.
    pub fn busy(&self) -> (r: bool)
        ensures
            r == (self.single_result.started is Some || self.chat_running),
    {
        self.single_result.started.is_some() || self.chat_running
    }

    /// Keeps the chosen upstream one that is enabled: another choice falls back
    /// to the first enabled one, if there is any.
    pub fn settle_selection(&mut self, upstreams: &Vec<Upstream>)
        ensures
            *final(self) == (ModelTestUi {
                selected_upstream_id: final(self).selected_upstream_id,
                ..*old(self)
            }),
            if old(self).target_place(upstreams@) is Some {
                final(self).selected_upstream_id == old(self).selected_upstream_id
            } else {
                match enabled_place(upstreams@, None, 0) {
                    Some(i) => final(self).selected_upstream_id matches Some(id) && id@
                        == upstreams@[i].id@,
                    None => final(self).selected_upstream_id is None,
                }
            },
    {
        let keeps: bool = match &self.selected_upstream_id {
            Some(id) => find_enabled(upstreams, Some(id.as_str())).is_some(),
            None => false,
        };
        if !keeps {
            self.selected_upstream_id =
            match find_enabled(upstreams, None) {
                Some(first) => Some(first.id.clone()),
                None => None,
            };
        }
    }

    /// The bench once an upstream was chosen: the models of another one are
    /// forgotten.
    pub fn choose_upstream(&mut self, id: String)
        ensures
            ({
                let same = old(self).selected_upstream_id matches Some(present) && present@ == id@;
                &&& final(self).selected_upstream_id == Some(id)
                &&& final(self).fetched_models@ == if same {
                    old(self).fetched_models@
                } else {
                    Seq::empty()
                }
                &&& final(self).fetched_for_upstream == if same {
                    old(self).fetched_for_upstream
                } else {
                    None
                }
                &&& *final(self) == (ModelTestUi {
                    selected_upstream_id: final(self).selected_upstream_id,
                    fetched_models: final(self).fetched_models,
                    fetched_for_upstream: final(self).fetched_for_upstream,
                    ..*old(self)
                })
            }),
    {
        let same: bool = match &self.selected_upstream_id {
            Some(present) => text::same(present.as_str(), id.as_str()),
            None => false,
        };
        if !same {
            self.fetched_models = Vec::new();
            self.fetched_for_upstream = None;
        }
        self.selected_upstream_id = Some(id);
    }

    /// The upstream that is tested.
    pub fn target_upstream<'a>(&self, upstreams: &'a Vec<Upstream>) -> (r: Option<&'a Upstream>)
        ensures
            match (r, self.target_place(upstreams@)) {
                (Some(found), Some(i)) => 0 <= i < upstreams@.len() && *found == upstreams@[i],
                (None, None) => true,
                _ => false,
            },
    {
        match &self.selected_upstream_id {
            Some(id) => find_enabled(upstreams, Some(id.as_str())),
            None => None,
        }
    }

    /// What is shown as the chosen upstream.
    pub fn selected_upstream_label(&self, upstreams: &Vec<Upstream>) -> (r: String)
        ensures
            r@ == match self.target_place(upstreams@) {
                Some(i) => upstreams@[i].name@,
                None => "选择上游"@,
            },
    {
        match self.target_upstream(upstreams) {
            Some(upstream) => upstream.name.clone(),
            None => "选择上游".to_string(),
        }
    }

    /// Whether the chosen upstream is an account, whose models cannot be listed.
    pub open spec fn tests_account(&self, upstreams: Seq<Upstream>) -> bool {
        self.target_place(upstreams) matches Some(i) && upstreams[i].kind
            == UpstreamKind::CodexOauth
    }

    /// Whether the chosen upstream is an account, whose models cannot be listed.
    pub fn selected_is_oauth(&self, upstreams: &Vec<Upstream>) -> (r: bool)
        ensures
            r == self.tests_account(upstreams@),
    {
        match self.target_upstream(upstreams) {
            Some(upstream) => upstream.kind == UpstreamKind::CodexOauth,
            None => false,
        }
    }

    /// Whether the models can be asked for, and how the button is labelled.
    pub fn fetch_button(&self, upstreams: &Vec<Upstream>) -> (r: (bool, &'static str))
        ensures
            r.0 == (!self.models_fetching && !self.tests_account(upstreams@)),
            r.1@ == if self.models_fetching {
                "拉取中..."@
            } else {
                "拉取模型列表"@
            },
    {
        (
            !self.models_fetching && !self.selected_is_oauth(upstreams),
            if self.models_fetching {
                "拉取中..."
            } else {
                "拉取模型列表"
            },
        )
    }

    /// Whether the listed models are offered: those of the upstream that is
    /// tested.
    pub fn offers_models(&self) -> (r: bool)
        ensures
            r == (self.fetched_models@.len() > 0 && self.target_mode == TargetMode::Direct
                && text::opt_view(self.fetched_for_upstream) == text::opt_view(
                self.selected_upstream_id,
            )),
    {
        let same: bool = match (&self.fetched_for_upstream, &self.selected_upstream_id) {
            (Some(listed), Some(chosen)) => text::same(listed.as_str(), chosen.as_str()),
            (None, None) => true,
            _ => false,
        };
        self.fetched_models.len() > 0 && self.target_mode == TargetMode::Direct && same
    }

    /// Whether a reasoning effort can be asked for: not by way of messages that
    /// are sent to an upstream directly.
    pub fn reasoning_supported(&self, upstreams: &Vec<Upstream>) -> (r: bool)
        ensures
            r == match self.target_mode {
                TargetMode::Scheduler => true,
                TargetMode::Custom => self.custom_wire_api != WireApi::AnthropicMessages,
                TargetMode::Direct => match self.target_place(upstreams@) {
                    Some(i) => upstreams@[i].wire_api != WireApi::AnthropicMessages,
                    None => true,
                },
            },
    {
        match self.target_mode {
            TargetMode::Scheduler => true,
            TargetMode::Custom => self.custom_wire_api != WireApi::AnthropicMessages,
            TargetMode::Direct => match self.target_upstream(upstreams) {
                Some(upstream) => upstream.wire_api != WireApi::AnthropicMessages,
                None => true,
            },
        }
    }

    /// Whether a place of a request is the one that was chosen.
    pub open spec fn is_target(
        &self,
        target: ModelTestTarget,
        upstreams: Seq<Upstream>,
        id: String,
        now: Timestamp,
    ) -> bool {
        match self.target_mode {
            TargetMode::Scheduler => target == (ModelTestTarget::Scheduler {
                group_id: self.selected_group_id,
            }),
            TargetMode::Direct => match (self.target_place(upstreams), target) {
                (Some(i), ModelTestTarget::Direct { upstream }) => upstream == upstreams[i],
                _ => false,
            },
            TargetMode::Custom => match target {
                ModelTestTarget::Custom { upstream, api_key } => {
                    &&& api_key@ == text::trimmed(self.custom_api_key@)
                    &&& is_custom_upstream(
                        &upstream,
                        self.custom_base_url@,
                        self.custom_wire_api,
                        id,
                        now,
                    )
                },
                _ => false,
            },
        }
    }

    /// Why a request cannot go where it was to go.
    pub open spec fn target_problem(&self, upstreams: Seq<Upstream>, server_running: bool) -> Option<
        Seq<char>,
    > {
        match self.target_mode {
            TargetMode::Scheduler => if server_running {
                None
            } else {
                Some("本地代理未启动, 请先在仪表盘启动服务"@)
            },
            TargetMode::Direct => if self.target_place(upstreams) is Some {
                None
            } else {
                Some("请选择要测试的上游"@)
            },
            TargetMode::Custom => if text::trimmed(self.custom_base_url@).len() == 0 {
                Some("请填写临时上游的 Base URL"@)
            } else {
                None
            },
        }
    }

    /// Where a request goes, a temporary upstream having a given identifier and
    /// time, or why it goes nowhere.
    pub fn dispatch_model_test(
        &self,
        upstreams: &Vec<Upstream>,
        server_running: bool,
        id: String,
        now: Timestamp,
    ) -> (r: Result<ModelTestTarget, String>)
        ensures
            match r {
                Ok(target) => self.target_problem(upstreams@, server_running) is None
                    && self.is_target(target, upstreams@, id, now),
                Err(message) => self.target_problem(upstreams@, server_running) == Some(message@),
            },
    {
        match self.target_mode {
            TargetMode::Scheduler => {
                if !server_running {
                    return Err("本地代理未启动, 请先在仪表盘启动服务".to_string());
                }
                Ok(
                    ModelTestTarget::Scheduler {
                        group_id: models::clone_opt(&self.selected_group_id),
                    },
                )
            },
            TargetMode::Direct => match self.target_upstream(upstreams) {
                Some(upstream) => Ok(ModelTestTarget::Direct { upstream: upstream.clone() }),
                None => Err("请选择要测试的上游".to_string()),
            },
            TargetMode::Custom => {
                match custom_upstream_at(
                    self.custom_base_url.as_str(),
                    self.custom_wire_api,
                    id,
                    now,
                ) {
                    Ok(upstream) => Ok(
                        ModelTestTarget::Custom {
                            upstream,
                            api_key: text::trim(self.custom_api_key.as_str()),
                        },
                    ),
                    Err(message) => Err(message),
                }
            },
        }
    }

    /// The bench with another run of the single test.
    pub open spec fn with_single(self, single_result: SingleResult) -> Self {
        ModelTestUi { single_result, ..self }
    }

    /// Whether this is what became of some state when the single test was sent:
    /// it runs, unless it ran already, its question is blank, its settings are
    /// wrong or it has nowhere to go.
    pub open spec fn is_sending(
        &self,
        before: &Self,
        r: Sending,
        upstreams: Seq<Upstream>,
        server_running: bool,
        id: String,
        now: Timestamp,
        instant: u128,
    ) -> bool {
        let question = text::trimmed(before.prompt@);
        let messages = seq![(ChatRole::User, question)];
        let settings = before.settings;
        if before.single_result.started is Some {
            r is Nothing && *self == *before
        } else if question.len() == 0 {
            r matches Sending::Refused(m) && m@ == "请填写测试 prompt"@ && *self
                == *before
        } else if let Some(problem) = settings.problem() {
            r matches Sending::Refused(m) && m@ == problem && *self == *before
        } else if let Some(problem) = before.target_problem(
            upstreams,
            server_running,
        ) {
            r matches Sending::Refused(m) && m@ == problem && *self == *before
        } else {
            &&& r matches Sending::Sent { target, params } && before.is_target(
                target,
                upstreams,
                id,
                now,
            ) && settings.gives(&params, messages)
            &&& *self == before.with_single(self.single_result)
            &&& self.single_result.started == Some(instant)
            &&& self.single_result.outcome is None
            &&& self.single_result.live_text@.len() == 0
            &&& self.single_result.live_reasoning@.len() == 0
        }
    }

    /// Sends the single test now; a temporary upstream gets a fresh identifier.
    pub fn send_model_test(&mut self, upstreams: &Vec<Upstream>, server_running: bool, instant: u128) -> (r:
        Sending)
        ensures
            exists|id: String, now: Timestamp|
                id@.len() == 36 && clock::is_now(now) && #[trigger] final(self).is_sending(
                    old(self),
                    r,
                    upstreams@,
                    server_running,
                    id,
                    now,
                    instant,
                ),
    {
        let id: String = clock::new_uuid();
        let now: Timestamp = clock::utc_now();
        let ghost given = id;
        let r: Sending = self.send_model_test_at(upstreams, server_running, id, now, instant);
        proof {
            assert(self.is_sending(
                old(self),
                r,
                upstreams@,
                server_running,
                given,
                now,
                instant,
            ));
        }
        r
    }

    /// Sends the single test at some time, unless it runs, its question is
    /// blank, its settings are wrong or it has nowhere to go.
    pub fn send_model_test_at(
        &mut self,
        upstreams: &Vec<Upstream>,
        server_running: bool,
        id: String,
        now: Timestamp,
        instant: u128,
    ) -> (r: Sending)
        ensures
            final(self).is_sending(
                old(self),
                r,
                upstreams@,
                server_running,
                id,
                now,
                instant,
            ),
    {
        if self.single_result.started.is_some() {
            return Sending::Nothing;
        }
        let question: String = text::trim(self.prompt.as_str());
        if text::is_empty(question.as_str()) {
            return Sending::Refused("请填写测试 prompt".to_string());
        }
        let ghost wanted = question@;
        let mut messages: Vec<ModelTestMessage> = Vec::new();
        messages.push(ModelTestMessage { role: ChatRole::User, content: question });
        proof {
            assert(parameters::messages_view(messages@) =~= seq![(ChatRole::User, wanted)]);
        }
        let params: ModelTestParams = match self.settings.build_model_test_params(messages) {
            Ok(params) => params,
            Err(message) => {
                return Sending::Refused(message);
            },
        };
        match self.dispatch_model_test(upstreams, server_running, id, now) {
            Ok(target) => {
                self.single_result =
                SingleResult {
                    started: Some(instant),
                    outcome: None,
                    live_text: String::new(),
                    live_reasoning: String::new(),
                };
                Sending::Sent { target, params }
            },
            Err(message) => Sending::Refused(message),
        }
    }

    /// The conversation so far, as it is sent.
    pub open spec fn conversation(&self) -> Seq<(ChatRole, Seq<char>)> {
        self.chat_messages@.map_values(|entry: ChatEntry| (entry.role, entry.text@))
    }

    fn conversation_messages(&self) -> (r: Vec<ModelTestMessage>)
        ensures
            parameters::messages_view(r@) == self.conversation(),
    {
        let mut messages: Vec<ModelTestMessage> = Vec::new();
        let mut i: usize = 0;
        while i < self.chat_messages.len()
            invariant
                i <= self.chat_messages@.len(),
                messages@.len() == i,
                forall|j: int|
                    0 <= j < i ==> (#[trigger] messages@[j]).role == self.chat_messages@[j].role
                        && messages@[j].content@ == self.chat_messages@[j].text@,
            decreases self.chat_messages@.len() - i,
        {
            messages.push(
                ModelTestMessage {
                    role: self.chat_messages[i].role,
                    content: self.chat_messages[i].text.clone(),
                },
            );
            i = i + 1;
        }
        proof {
            assert(parameters::messages_view(messages@) =~= self.conversation());
        }
        messages
    }

    /// Whether the conversation is an earlier one with more said, and nothing
    /// else of the bench changed but what was typed and whether it runs.
    pub open spec fn chat_goes_on(&self, before: &Self, more: nat) -> bool {
        &&& self.chat_messages@.len() == before.chat_messages@.len() + more
        &&& self.chat_messages@.take(before.chat_messages@.len() as int) == before.chat_messages@
        &&& *self == (ModelTestUi {
            chat_messages: self.chat_messages,
            chat_input: self.chat_input,
            chat_running: self.chat_running,
            chat_started: self.chat_started,
            ..*before
        })
    }

    /// Whether this is what became of some state when the conversation was sent
    /// on with what was typed: where it has nowhere to go, the reason is the
    /// answer.
    pub open spec fn is_saying(
        &self,
        before: &Self,
        r: Sending,
        upstreams: Seq<Upstream>,
        server_running: bool,
        id: String,
        now: Timestamp,
        instant: u128,
    ) -> bool {
        let said = text::trimmed(before.chat_input@);
        let messages = before.conversation().push((ChatRole::User, said));
        let settings = before.settings;
        let first = before.chat_messages@.len() as int;
        if said.len() == 0 {
            r is Nothing && *self == *before
        } else if let Some(problem) = settings.problem() {
            r matches Sending::Refused(m) && m@ == problem && *self == *before
        } else if let Some(problem) = before.target_problem(
            upstreams,
            server_running,
        ) {
            &&& r matches Sending::Refused(m) && m@ == problem
            &&& self.chat_goes_on(before, 2)
            &&& is_plain_entry(
                &self.chat_messages@[first],
                ChatRole::User,
                said,
                false,
            )
            &&& is_plain_entry(
                &self.chat_messages@[first + 1],
                ChatRole::Assistant,
                problem,
                true,
            )
            &&& self.chat_input@.len() == 0
            &&& self.chat_running == before.chat_running
            &&& self.chat_started == before.chat_started
        } else {
            &&& r matches Sending::Sent { target, params } && before.is_target(
                target,
                upstreams,
                id,
                now,
            ) && settings.gives(&params, messages)
            &&& self.chat_goes_on(before, 1)
            &&& is_plain_entry(
                &self.chat_messages@[first],
                ChatRole::User,
                said,
                false,
            )
            &&& self.chat_input@.len() == 0
            &&& self.chat_running
            &&& self.chat_started == Some(instant)
        }
    }

    /// Sends the conversation on now; a temporary upstream gets a fresh
    /// identifier.
    pub fn send_model_test_chat(&mut self, upstreams: &Vec<Upstream>, server_running: bool, instant: u128) -> (r:
        Sending)
        ensures
            exists|id: String, now: Timestamp|
                id@.len() == 36 && clock::is_now(now) && #[trigger] final(self).is_saying(
                    old(self),
                    r,
                    upstreams@,
                    server_running,
                    id,
                    now,
                    instant,
                ),
    {
        let id: String = clock::new_uuid();
        let now: Timestamp = clock::utc_now();
        let ghost given = id;
        let r: Sending = self.send_model_test_chat_at(upstreams, server_running, id, now, instant);
        proof {
            assert(self.is_saying(
                old(self),
                r,
                upstreams@,
                server_running,
                given,
                now,
                instant,
            ));
        }
        r
    }

    /// Sends what was typed into the conversation at some time, with all that
    /// was said before. Where it has nowhere to go, the reason is the answer.
    pub fn send_model_test_chat_at(
        &mut self,
        upstreams: &Vec<Upstream>,
        server_running: bool,
        id: String,
        now: Timestamp,
        instant: u128,
    ) -> (r: Sending)
        ensures
            final(self).is_saying(
                old(self),
                r,
                upstreams@,
                server_running,
                id,
                now,
                instant,
            ),
    {
        let said: String = text::trim(self.chat_input.as_str());
        if text::is_empty(said.as_str()) {
            return Sending::Nothing;
        }
        let mut messages: Vec<ModelTestMessage> = self.conversation_messages();
        let ghost earlier = messages@;
        messages.push(ModelTestMessage { role: ChatRole::User, content: said.clone() });
        proof {
            assert(parameters::messages_view(messages@) =~= parameters::messages_view(
                earlier,
            ).push((ChatRole::User, said@)));
        }
        let params: ModelTestParams = match self.settings.build_model_test_params(messages) {
            Ok(params) => params,
            Err(message) => {
                return Sending::Refused(message);
            },
        };
        let target: Result<ModelTestTarget, String> = self.dispatch_model_test(
            upstreams,
            server_running,
            id,
            now,
        );
        self.chat_messages.push(plain_entry(ChatRole::User, said, false));
        self.chat_input = String::new();
        match target {
            Ok(target) => {
                self.chat_running = true;
                self.chat_started = Some(instant);
                proof {
                    assert(self.chat_messages@.take(old(self).chat_messages@.len() as int)
                        =~= old(self).chat_messages@);
                }
                Sending::Sent { target, params }
            },
            Err(message) => {
                self.chat_messages.push(plain_entry(ChatRole::Assistant, message.clone(), true));
                proof {
                    assert(self.chat_messages@.take(old(self).chat_messages@.len() as int)
                        =~= old(self).chat_messages@);
                }
                Sending::Refused(message)
            },
        }
    }

    /// Starts to ask for the models of the chosen upstream, and says so; the
    /// upstream is given where it is asked.
    pub fn fetch_model_test_models<'a>(&mut self, upstreams: &'a Vec<Upstream>) -> (r: (
        Option<&'a Upstream>,
        Option<String>,
    ))
        ensures
            ({
                let place = old(self).target_place(upstreams@);
                if old(self).models_fetching {
                    r.0 is None && r.1 is None && *final(self) == *old(self)
                } else if place is None {
                    r.0 is None && text::opt_view(r.1) == Some("请选择要测试的上游"@)
                        && *final(self) == *old(self)
                } else {
                    &&& r.0 matches Some(upstream) && *upstream == upstreams@[place->0]
                    &&& text::opt_view(r.1) == Some(
                        "正在拉取上游 "@ + upstreams@[place->0].name@ + " 的模型列表"@,
                    )
                    &&& *final(self) == (ModelTestUi { models_fetching: true, ..*old(self) })
                }
            }),
    {
        if self.models_fetching {
            return (None, None);
        }
        match self.target_upstream(upstreams) {
            Some(upstream) => {
                self.models_fetching = true;
                let status: String = text::concat3(
                    "正在拉取上游 ",
                    upstream.name.as_str(),
                    " 的模型列表",
                );
                (Some(upstream), Some(status))
            },
            None => (None, Some("请选择要测试的上游".to_string())),
        }
    }

    /// Takes in the models of an upstream, and says what came of it.
    pub fn handle_model_test_models_fetched(
        &mut self,
        upstream_id: String,
        result: Result<Vec<String>, String>,
    ) -> (r: String)
        ensures
            match result {
                Ok(listed) => r@ == "已获取 "@ + number::nat_text(listed@.len()) + " 个模型"@
                    && *final(self) == (ModelTestUi {
                    models_fetching: false,
                    fetched_models: listed,
                    fetched_for_upstream: Some(upstream_id),
                    ..*old(self)
                }),
                Err(message) => r@ == "拉取模型列表失败: "@ + message@ && *final(self) == (
                ModelTestUi { models_fetching: false, ..*old(self) }),
            },
    {
        self.models_fetching = false;
        match result {
            Ok(listed) => {
                let status: String = text::concat3(
                    "已获取 ",
                    number::usize_text(listed.len()).as_str(),
                    " 个模型",
                );
                self.fetched_models = listed;
                self.fetched_for_upstream = Some(upstream_id);
                status
            },
            Err(message) => text::concat("拉取模型列表失败: ", message.as_str()),
        }
    }

    /// Takes in a part of an answer.
    pub fn handle_model_test_delta(&mut self, kind: ModelTestKind, part: StreamPart)
        ensures
            match (kind, part) {
                (ModelTestKind::Single, StreamPart::Text(more)) => {
                    &&& final(self).single_result.live_text@ == old(self).single_result.live_text@
                        + more@
                    &&& *final(self) == (ModelTestUi {
                        single_result: SingleResult {
                            live_text: final(self).single_result.live_text,
                            ..old(self).single_result
                        },
                        ..*old(self)
                    })
                },
                (ModelTestKind::Single, StreamPart::Reasoning(more)) => {
                    &&& final(self).single_result.live_reasoning@ == old(
                        self,
                    ).single_result.live_reasoning@ + more@
                    &&& *final(self) == (ModelTestUi {
                        single_result: SingleResult {
                            live_reasoning: final(self).single_result.live_reasoning,
                            ..old(self).single_result
                        },
                        ..*old(self)
                    })
                },
                (ModelTestKind::Chat, StreamPart::Text(more)) => {
                    &&& final(self).chat_live_text@ == old(self).chat_live_text@ + more@
                    &&& *final(self) == (ModelTestUi {
                        chat_live_text: final(self).chat_live_text,
                        ..*old(self)
                    })
                },
                (ModelTestKind::Chat, StreamPart::Reasoning(more)) => {
                    &&& final(self).chat_live_reasoning@ == old(self).chat_live_reasoning@ + more@
                    &&& *final(self) == (ModelTestUi {
                        chat_live_reasoning: final(self).chat_live_reasoning,
                        ..*old(self)
                    })
                },
            },
    {
        match (kind, part) {
            (ModelTestKind::Single, StreamPart::Text(more)) => {
                self.single_result.live_text =
                text::concat(self.single_result.live_text.as_str(), more.as_str());
            },
            (ModelTestKind::Single, StreamPart::Reasoning(more)) => {
                self.single_result.live_reasoning =
                text::concat(self.single_result.live_reasoning.as_str(), more.as_str());
            },
            (ModelTestKind::Chat, StreamPart::Text(more)) => {
                self.chat_live_text = text::concat(self.chat_live_text.as_str(), more.as_str());
            },
            (ModelTestKind::Chat, StreamPart::Reasoning(more)) => {
                self.chat_live_reasoning =
                text::concat(self.chat_live_reasoning.as_str(), more.as_str());
            },
        }
    }

    /// Whether the history is an earlier one with a record of a request more.
    pub open spec fn recorded(
        &self,
        before: &Self,
        outcome: &ModelTestOutcome,
        finished_at: Timestamp,
    ) -> bool {
        &&& self.history@.len() == before.history@.len() + 1
        &&& self.history@.drop_last() == before.history@
        &&& self.history@.last().is_of(outcome, finished_at)
    }

    /// Whether this is what became of some state when a request ended at some
    /// time.
    pub open spec fn is_after(
        &self,
        before: &Self,
        kind: ModelTestKind,
        outcome: ModelTestOutcome,
        finished_at: Timestamp,
    ) -> bool {
        &&& self.recorded(before, &outcome, finished_at)
        &&& match kind {
            ModelTestKind::Single => {
                &&& self.single_result.started is None
                &&& self.single_result.outcome == Some(outcome)
                &&& self.single_result.live_text@.len() == 0
                &&& self.single_result.live_reasoning@.len() == 0
                &&& *self == (ModelTestUi {
                    single_result: self.single_result,
                    history: self.history,
                    ..*before
                })
            },
            ModelTestKind::Chat => {
                &&& self.chat_messages@.len() == before.chat_messages@.len() + 1
                &&& self.chat_messages@.drop_last() == before.chat_messages@
                &&& is_answer(&self.chat_messages@.last(), &outcome, finished_at)
                &&& !self.chat_running
                &&& self.chat_started is None
                &&& self.chat_live_text@.len() == 0
                &&& self.chat_live_reasoning@.len() == 0
                &&& *self == (ModelTestUi {
                    chat_messages: self.chat_messages,
                    chat_running: false,
                    chat_started: None,
                    chat_live_text: self.chat_live_text,
                    chat_live_reasoning: self.chat_live_reasoning,
                    history: self.history,
                    ..*before
                })
            },
        }
    }

    /// Takes in the end of a request just now, and says how it ended.
    pub fn finish_model_test(&mut self, kind: ModelTestKind, outcome: ModelTestOutcome) -> (r:
        String)
        ensures
            r@ == finished_text(&outcome),
            exists|at: Timestamp|
                clock::is_now(at) && #[trigger] final(self).is_after(
                    old(self),
                    kind,
                    outcome,
                    at,
                ),
    {
        let at: Timestamp = clock::utc_now();
        self.handle_model_test_finished(kind, outcome, at)
    }

    /// Takes in the end of a request, and says how it ended.
    pub fn handle_model_test_finished(
        &mut self,
        kind: ModelTestKind,
        outcome: ModelTestOutcome,
        finished_at: Timestamp,
    ) -> (r: String)
        ensures
            r@ == finished_text(&outcome),
            final(self).is_after(old(self), kind, outcome, finished_at),
    {
        let status: String = finished_status(&outcome);
        self.history.push(ModelTestRecord::from_outcome(&outcome, finished_at));
        proof {
            assert(self.history@.drop_last() =~= old(self).history@);
        }
        match kind {
            ModelTestKind::Single => {
                self.single_result =
                SingleResult {
                    started: None,
                    outcome: Some(outcome),
                    live_text: String::new(),
                    live_reasoning: String::new(),
                };
            },
            ModelTestKind::Chat => {
                self.chat_running = false;
                self.chat_started = None;
                self.chat_live_text = String::new();
                self.chat_live_reasoning = String::new();
                self.chat_messages.push(answer(&outcome, finished_at));
                proof {
                    assert(self.chat_messages@.drop_last() =~= old(self).chat_messages@);
                }
            },
        }
        status
    }

    /// Whether the conversation can be cleared.
    pub fn can_clear_chat(&self) -> (r: bool)
        ensures
            r == (self.chat_messages@.len() > 0 && !self.chat_running),
    {
        self.chat_messages.len() > 0 && !self.chat_running
    }

    /// Forgets the conversation and what was typed for it.
    pub fn clear_chat(&mut self)
        ensures
            final(self).chat_messages@.len() == 0,
            final(self).chat_input@.len() == 0,
            *final(self) == (ModelTestUi {
                chat_messages: final(self).chat_messages,
                chat_input: final(self).chat_input,
                ..*old(self)
            }),
    {
        self.chat_messages = Vec::new();
        self.chat_input = String::new();
    }

    /// Forgets the records, and says how many there were.
    pub fn clear_history(&mut self) -> (r: String)
        ensures
            r@ == "已清除 "@ + number::nat_text(old(self).history@.len()) + " 条测试记录"@,
            final(self).history@.len() == 0,
            *final(self) == (ModelTestUi { history: final(self).history, ..*old(self) }),
    {
        let count: usize = self.history.len();
        self.history = Vec::new();
        text::concat3("已清除 ", number::usize_text(count).as_str(), " 条测试记录")
    }
}

/// Whether an upstream is the temporary one of an address.
pub open spec fn is_custom_upstream(
    upstream: &Upstream,
    base_url: Seq<char>,
    wire_api: WireApi,
    id: String,
    now: Timestamp,
) -> bool {
    &&& upstream.id == id
    &&& upstream.kind == UpstreamKind::RelayApiKey
    &&& upstream.name@ == CUSTOM_UPSTREAM_NAME@
    &&& upstream.base_url@ == text::trimmed(base_url)
    &&& upstream.wire_api == wire_api
    &&& upstream.supports_compact
    &&& upstream.balance_provider == BalanceProvider::Unsupported
    &&& upstream.proxy_url is None
    &&& upstream.enabled
    &&& upstream.created_at == now
    &&& upstream.updated_at == now
}

/// The temporary upstream of an address, with a given identifier and time.
pub fn custom_upstream_at(base_url: &str, wire_api: WireApi, id: String, now: Timestamp) -> (r:
    Result<Upstream, String>)
    ensures
        if text::trimmed(base_url@).len() == 0 {
            r matches Err(message) && message@ == "请填写临时上游的 Base URL"@
        } else {
            r matches Ok(upstream) && is_custom_upstream(&upstream, base_url@, wire_api, id, now)
        },
{
    let bare: String = text::trim(base_url);
    if text::is_empty(bare.as_str()) {
        return Err("请填写临时上游的 Base URL".to_string());
    }
    Ok(
        Upstream::relay(
            id,
            now,
            CUSTOM_UPSTREAM_NAME.to_string(),
            bare,
            wire_api,
            true,
            BalanceProvider::Unsupported,
        ),
    )
}

/// The temporary upstream of an address, made now with a fresh identifier.
pub fn model_test_custom_upstream(base_url: &str, wire_api: WireApi) -> (r: Result<
    Upstream,
    String,
>)
    ensures
        if text::trimmed(base_url@).len() == 0 {
            r matches Err(message) && message@ == "请填写临时上游的 Base URL"@
        } else {
            r matches Ok(upstream) && upstream.id@.len() == 36 && clock::is_now(upstream.created_at)
                && is_custom_upstream(
                &upstream,
                base_url@,
                wire_api,
                upstream.id,
                upstream.created_at,
            )
        },
{
    let id: String = clock::new_uuid();
    custom_upstream_at(base_url, wire_api, id, clock::utc_now())
}

/// Whether a message belongs to no request.
pub open spec fn is_plain_entry(entry: &ChatEntry, role: ChatRole, said: Seq<char>, error: bool) -> bool {
    &&& entry.role == role
    &&& entry.text@ == said
    &&& entry.reasoning@.len() == 0
    &&& entry.error == error
    &&& entry.record is None
}

fn plain_entry(role: ChatRole, said: String, error: bool) -> (r: ChatEntry)
    ensures
        is_plain_entry(&r, role, said@, error),
{
    ChatEntry { role, text: said, reasoning: String::new(), error, record: None }
}

/// Whether a message is the answer of a request: what came back, or what went
/// wrong.
pub open spec fn is_answer(
    entry: &ChatEntry,
    outcome: &ModelTestOutcome,
    finished_at: Timestamp,
) -> bool {
    &&& entry.role == ChatRole::Assistant
    &&& entry.record matches Some(record) && record.is_of(outcome, finished_at)
    &&& entry.error == !succeeded(outcome.error, outcome.status)
    &&& if succeeded(outcome.error, outcome.status) {
        entry.text@ == outcome.output_text@ && entry.reasoning@ == outcome.reasoning_text@
    } else {
        entry.reasoning@.len() == 0 && entry.text@ == match outcome.error {
            Some(message) => message@,
            None => "请求失败 ("@ + number::int_text(outcome.status as int) + ")"@,
        }
    }
}

fn answer(outcome: &ModelTestOutcome, finished_at: Timestamp) -> (r: ChatEntry)
    ensures
        is_answer(&r, outcome, finished_at),
{
    let record: ModelTestRecord = ModelTestRecord::from_outcome(outcome, finished_at);
    if outcome.is_success() {
        ChatEntry {
            role: ChatRole::Assistant,
            text: outcome.output_text.clone(),
            reasoning: outcome.reasoning_text.clone(),
            error: false,
            record: Some(record),
        }
    } else {
        ChatEntry {
            role: ChatRole::Assistant,
            text: match &outcome.error {
                Some(message) => message.clone(),
                None => text::concat3(
                    "请求失败 (",
                    number::i64_text(outcome.status).as_str(),
                    ")",
                ),
            },
            reasoning: String::new(),
            error: true,
            record: Some(record),
        }
    }
}

/// How long the first token took.
pub open spec fn first_token(ms: Option<i64>) -> Seq<char> {
    match ms {
        Some(n) => number::int_text(n as int) + " ms"@,
        None => "未返回"@,
    }
}

/// How long the first token took.
pub fn first_token_text(ms: Option<i64>) -> (r: String)
    ensures
        r@ == first_token(ms),
{
    match ms {
        Some(n) => text::concat(number::i64_text(n).as_str(), " ms"),
        None => "未返回".to_string(),
    }
}

/// What is said at the end of a request.
pub open spec fn finished_text(outcome: &ModelTestOutcome) -> Seq<char> {
    if succeeded(outcome.error, outcome.status) {
        "测试完成: "@ + number::int_text(outcome.duration_ms as int) + " ms, 首 token "@
            + first_token(outcome.first_token_ms)
    } else {
        "测试失败: "@ + match outcome.error {
            Some(message) => message@,
            None => "未知错误"@,
        }
    }
}

fn finished_status(outcome: &ModelTestOutcome) -> (r: String)
    ensures
        r@ == finished_text(outcome),
{
    if outcome.is_success() {
        text::concat4(
            "测试完成: ",
            number::i64_text(outcome.duration_ms).as_str(),
            " ms, 首 token ",
            first_token_text(outcome.first_token_ms).as_str(),
        )
    } else {
        match &outcome.error {
            Some(message) => text::concat("测试失败: ", message.as_str()),
            None => text::concat("测试失败: ", "未知错误"),
        }
    }
}

/// Whether a request succeeded, as it is shown.
pub fn outcome_status_label(success: bool) -> (r: &'static str)
    ensures
        r@ == if success {
            "成功"@
        } else {
            "失败"@
        },
{
    if success {
        "成功"
    } else {
        "失败"
    }
}

/// The name of the chosen schedule group.
pub open spec fn group_place(groups: Seq<ScheduleGroup>, id: Seq<char>, from: int) -> Option<int>
    decreases groups.len() - from,
{
    if from < 0 || from >= groups.len() {
        None
    } else if groups[from].id@ == id {
        Some(from)
    } else {
        group_place(groups, id, from + 1)
    }
}

/// What is shown as the chosen schedule group.
pub fn selected_group_label(selected: &Option<String>, groups: &Vec<ScheduleGroup>) -> (r: String)
    ensures
        r@ == match *selected {
            Some(id) => match group_place(groups@, id@, 0) {
                Some(i) => groups@[i].name@,
                None => "当前调度组"@,
            },
            None => "当前调度组"@,
        },
{
    let id: &String = match selected {
        Some(id) => id,
        None => {
            return "当前调度组".to_string();
        },
    };
    let mut i: usize = 0;
    while i < groups.len()
        invariant
            i <= groups@.len(),
            group_place(groups@, id@, 0) == group_place(groups@, id@, i as int),
            *selected == Some(*id),
        decreases groups@.len() - i,
    {
        if text::same(groups[i].id.as_str(), id.as_str()) {
            return groups[i].name.clone();
        }
        i = i + 1;
    }
    "当前调度组".to_string()
}

/// The label of a protocol.
pub fn wire_api_label(wire_api: WireApi) -> (r: &'static str)
    ensures
        r@ == match wire_api {
            WireApi::ChatCompletions => "Chat Completions"@,
            WireApi::Responses => "Responses"@,
            WireApi::AnthropicMessages => "Anthropic Messages"@,
        },
{
    match wire_api {
        WireApi::ChatCompletions => "Chat Completions",
        WireApi::Responses => "Responses",
        WireApi::AnthropicMessages => "Anthropic Messages",
    }
}

/// What the records show of a request.
pub struct RecordRow {
    pub upstream: String,
    pub success: bool,
    pub hover: String,
    pub duration: String,
    pub first_token: String,
}

/// What the records show of a request.
pub fn record_row(record: &ModelTestRecord) -> (r: RecordRow)
    ensures
        r.upstream@ == match record.upstream_name {
            Some(name) => name@,
            None => "调度组"@,
        },
        r.success == succeeded(record.error, record.status),
        r.hover@ == match record.error {
            Some(message) => message@,
            None => "测试台请求 "@ + record.endpoint@,
        },
        r.duration@ == number::int_text(record.duration_ms as int) + " ms"@,
        r.first_token@ == match record.first_token_ms {
            Some(ms) => number::int_text(ms as int) + " ms"@,
            None => if record.stream {
                "未返回"@
            } else {
                "非流式"@
            },
        },
{
    RecordRow {
        upstream: match &record.upstream_name {
            Some(name) => name.clone(),
            None => "调度组".to_string(),
        },
        success: record.error.is_none() && 200 <= record.status && record.status < 300,
        hover: match &record.error {
            Some(message) => message.clone(),
            None => text::concat("测试台请求 ", record.endpoint.as_str()),
        },
        duration: text::concat(number::i64_text(record.duration_ms).as_str(), " ms"),
        first_token: match record.first_token_ms {
            Some(ms) => text::concat(number::i64_text(ms).as_str(), " ms"),
            None => if record.stream {
                "未返回".to_string()
            } else {
                "非流式".to_string()
            },
        },
    }
}

/// A month, a day and a time of day.
pub open spec fn day_text(t: CivilTime) -> Seq<char> {
    number::padded_text(t.month as nat, 2) + "-"@ + number::padded_text(t.day as nat, 2) + " "@
        + active::clock_text(t)
}

/// A month, a day and a time of day.
pub fn format_day(t: CivilTime) -> (r: String)
    ensures
        r@ == day_text(t),
{
    let date: String = text::concat3(
        number::padded(t.month as u64, 2).as_str(),
        "-",
        number::padded(t.day as u64, 2).as_str(),
    );
    text::concat3(date.as_str(), " ", active::format_clock(t).as_str())
}

/// When a request ended, as the machine's time zone shows it.
pub fn record_time(record: &ModelTestRecord) -> (r: String)
    requires
        clock::in_calendar(record.finished_at.seconds),
        record.finished_at.nanos < 1_000_000_000,
    ensures
        exists|t: CivilTime|
            t.wf() && clock::shown_at(t, record.finished_at.seconds) && r@ == #[trigger] day_text(t),
{
    format_day(clock::utc_to_local(record.finished_at))
}

/// What is shown under a message that answers a request, its tokens being
/// written as they are shown.
pub fn entry_line(record: &ModelTestRecord, tokens: &str) -> (r: String)
    ensures
        r@ == "耗时 "@ + number::int_text(record.duration_ms as int) + " ms, 首 token "@
            + first_token(record.first_token_ms) + ", 总 tokens "@ + tokens@,
{
    let head: String = text::concat4(
        "耗时 ",
        number::i64_text(record.duration_ms).as_str(),
        " ms, 首 token ",
        first_token_text(record.first_token_ms).as_str(),
    );
    text::concat3(head.as_str(), ", 总 tokens ", tokens)
}

/// What is shown of an answer that comes in: that it is awaited, as long as
/// there is nothing of it.
pub fn live_display(said: &str, live: bool) -> (r: String)
    ensures
        r@ == if said@.len() == 0 && live {
            "(等待输出...)"@
        } else {
            said@
        },
{
    if live && text::is_empty(said) {
        "(等待输出...)".to_string()
    } else {
        said.to_string()
    }
}

/// A selection that was settled names an enabled upstream wherever there is
/// one.
pub proof fn law_selection_is_settled(
    before: &ModelTestUi,
    after: &ModelTestUi,
    upstreams: Seq<Upstream>,
)
    requires
        if before.target_place(upstreams) is Some {
            after.selected_upstream_id == before.selected_upstream_id
        } else {
            match enabled_place(upstreams, None, 0) {
                Some(i) => after.selected_upstream_id matches Some(id) && id@ == upstreams[i].id@,
                None => after.selected_upstream_id is None,
            }
        },
    ensures
        enabled_place(upstreams, None, 0) is Some ==> after.target_place(upstreams) is Some,
        enabled_place(upstreams, None, 0) is None ==> after.target_place(upstreams) is None,
{
    lemma_enabled_place(upstreams, None, 0);
    if let Some(i) = enabled_place(upstreams, None, 0) {
        if before.target_place(upstreams) is None {
            lemma_enabled_found(upstreams, upstreams[i].id@, 0, i);
        }
    } else {
        if let Some(id) = before.selected_upstream_id {
            lemma_none_enabled(upstreams, id@, 0);
        }
    }
}

proof fn lemma_enabled_found(upstreams: Seq<Upstream>, id: Seq<char>, from: int, at: int)
    requires
        0 <= from <= at < upstreams.len(),
        upstreams[at].enabled,
        upstreams[at].id@ == id,
    ensures
        enabled_place(upstreams, Some(id), from) is Some,
    decreases at - from,
{
    if from < at {
        lemma_enabled_found(upstreams, id, from + 1, at);
    }
}

proof fn lemma_none_enabled(upstreams: Seq<Upstream>, id: Seq<char>, from: int)
    requires
        0 <= from,
        enabled_place(upstreams, None, from) is None,
    ensures
        enabled_place(upstreams, Some(id), from) is None,
    decreases upstreams.len() - from,
{
    if from < upstreams.len() {
        lemma_none_enabled(upstreams, id, from + 1);
    }
}

/// The first enabled upstream is one that is enabled, with the wanted
/// identifier where one is wanted, and none before it is.
pub proof fn law_enabled_upstream_is_found(
    upstreams: Seq<Upstream>,
    id: Option<Seq<char>>,
    from: int,
)
    requires
        0 <= from <= upstreams.len(),
    ensures
        match enabled_place(upstreams, id, from) {
            Some(i) => {
                &&& from <= i < upstreams.len()
                &&& upstreams[i].enabled
                &&& id matches Some(wanted) ==> upstreams[i].id@ == wanted
                &&& forall|j: int|
                    from <= j < i ==> !(#[trigger] upstreams[j]).enabled || (id matches Some(
                        wanted,
                    ) && upstreams[j].id@ != wanted)
            },
            None => forall|j: int|
                from <= j < upstreams.len() ==> !(#[trigger] upstreams[j]).enabled || (
                id matches Some(wanted) && upstreams[j].id@ != wanted),
        },
    decreases upstreams.len() - from,
{
    if from < upstreams.len() && !(upstreams[from].enabled && (id matches Some(wanted)
        ==> upstreams[from].id@ == wanted)) {
        law_enabled_upstream_is_found(upstreams, id, from + 1);
    }
}

/// A request goes where it was sent: to the chosen upstream, which is enabled;
/// through the chosen group; or to the typed address with the typed key.
pub proof fn law_request_goes_where_it_was_sent(
    ui: &ModelTestUi,
    target: ModelTestTarget,
    upstreams: Seq<Upstream>,
    id: String,
    now: Timestamp,
)
    requires
        ui.is_target(target, upstreams, id, now),
    ensures
        target is Direct <==> ui.target_mode == TargetMode::Direct,
        target is Scheduler <==> ui.target_mode == TargetMode::Scheduler,
        target is Custom <==> ui.target_mode == TargetMode::Custom,
        target matches ModelTestTarget::Direct { upstream } ==> upstream.enabled && (
        ui.selected_upstream_id matches Some(chosen) && chosen@ == upstream.id@)
            && upstreams.contains(upstream),
        target matches ModelTestTarget::Scheduler { group_id } ==> group_id
            == ui.selected_group_id,
        target matches ModelTestTarget::Custom { upstream, api_key } ==> {
            &&& api_key@ == text::trimmed(ui.custom_api_key@)
            &&& upstream.base_url@ == text::trimmed(ui.custom_base_url@)
            &&& upstream.wire_api == ui.custom_wire_api
            &&& upstream.kind == UpstreamKind::RelayApiKey
            &&& upstream.enabled
            &&& upstream.id == id
            &&& upstream.proxy_url is None
        },
{
    if ui.selected_upstream_id is Some {
        law_enabled_upstream_is_found(upstreams, Some(ui.selected_upstream_id->0@), 0);
    }
}

/// A request is refused by its target exactly where the service that it goes
/// through does not run, no enabled upstream is chosen, or the typed address
/// is blank; each reason counts in its own mode alone.
pub proof fn law_target_is_refused_for_its_own_reason(
    ui: &ModelTestUi,
    upstreams: Seq<Upstream>,
    server_running: bool,
)
    ensures
        ui.target_mode == TargetMode::Scheduler ==> (ui.target_problem(
            upstreams,
            server_running,
        ) is Some <==> !server_running),
        ui.target_mode == TargetMode::Custom ==> (ui.target_problem(
            upstreams,
            server_running,
        ) is Some <==> text::trimmed(ui.custom_base_url@).len() == 0),
        ui.target_mode == TargetMode::Direct ==> (ui.target_problem(
            upstreams,
            server_running,
        ) is None <==> (ui.selected_upstream_id matches Some(chosen) && exists|i: int|
            0 <= i < upstreams.len() && (#[trigger] upstreams[i]).enabled && upstreams[i].id@
                == chosen@)),
{
    if ui.selected_upstream_id is Some {
        law_enabled_upstream_is_found(upstreams, Some(ui.selected_upstream_id->0@), 0);
    }
}

/// A single test that goes out asks the question that was typed, as the user,
/// and nothing else; while one runs, none goes out, and a blank question never
/// does.
pub proof fn law_single_test_asks_the_question(
    before: &ModelTestUi,
    after: &ModelTestUi,
    r: Sending,
    upstreams: Seq<Upstream>,
    server_running: bool,
    id: String,
    now: Timestamp,
    instant: u128,
)
    requires
        after.is_sending(before, r, upstreams, server_running, id, now, instant),
    ensures
        r is Nothing <==> before.single_result.started is Some,
        r is Sent <==> {
            &&& before.single_result.started is None
            &&& text::trimmed(before.prompt@).len() > 0
            &&& before.settings.problem() is None
            &&& before.target_problem(upstreams, server_running) is None
        },
        r matches Sending::Sent { target, params } ==> {
            &&& params.messages@.len() == 1
            &&& params.messages@[0].role == ChatRole::User
            &&& params.messages@[0].content@ == text::trimmed(before.prompt@)
            &&& params.model@ == text::trimmed(before.settings.model_input@)
            &&& params.stream == before.settings.stream
            &&& after.single_result.started == Some(instant)
            &&& after.single_result.outcome is None
        },
        !(r is Sent) ==> *after == *before,
        after.chat_messages == before.chat_messages,
        after.history == before.history,
{
    if r is Sent {
        let params = r->params;
        let seen = parameters::messages_view(params.messages@);
        assert(seen.len() == 1 && seen[0] == (ChatRole::User, text::trimmed(before.prompt@)));
    }
}

/// What is said in the conversation goes out behind all that was said before,
/// in its order, and stays in it as the user's.
pub proof fn law_conversation_is_sent_whole(
    before: &ModelTestUi,
    after: &ModelTestUi,
    r: Sending,
    upstreams: Seq<Upstream>,
    server_running: bool,
    id: String,
    now: Timestamp,
    instant: u128,
)
    requires
        after.is_saying(before, r, upstreams, server_running, id, now, instant),
    ensures
        r is Nothing <==> text::trimmed(before.chat_input@).len() == 0,
        r is Sent <==> {
            &&& text::trimmed(before.chat_input@).len() > 0
            &&& before.settings.problem() is None
            &&& before.target_problem(upstreams, server_running) is None
        },
        r matches Sending::Sent { target, params } ==> {
            let n = before.chat_messages@.len() as int;
            &&& params.messages@.len() == n + 1
            &&& forall|i: int|
                0 <= i < n ==> (#[trigger] params.messages@[i]).role
                    == before.chat_messages@[i].role && params.messages@[i].content@
                    == before.chat_messages@[i].text@
            &&& params.messages@[n].role == ChatRole::User
            &&& params.messages@[n].content@ == text::trimmed(before.chat_input@)
            &&& after.chat_messages@.len() == n + 1
            &&& after.chat_messages@[n].role == ChatRole::User
            &&& after.chat_messages@[n].text@ == text::trimmed(before.chat_input@)
            &&& !after.chat_messages@[n].error
            &&& after.chat_running
            &&& after.chat_input@.len() == 0
        },
        r matches Sending::Refused(m) ==> (before.settings.problem() is None ==> {
            let n = before.chat_messages@.len() as int;
            &&& after.chat_messages@.len() == n + 2
            &&& after.chat_messages@[n + 1].role == ChatRole::Assistant
            &&& after.chat_messages@[n + 1].error
            &&& after.chat_messages@[n + 1].text@ == m@
            &&& after.chat_running == before.chat_running
        }),
        after.single_result == before.single_result,
        after.history == before.history,
{
    if r is Sent {
        let params = r->params;
        let seen = parameters::messages_view(params.messages@);
        let n = before.chat_messages@.len() as int;
        assert(seen.len() == n + 1);
        assert forall|i: int| 0 <= i < n implies (#[trigger] params.messages@[i]).role
            == before.chat_messages@[i].role && params.messages@[i].content@
            == before.chat_messages@[i].text@ by {
            assert(seen[i] == before.conversation()[i]);
        }
        assert(seen[n] == (ChatRole::User, text::trimmed(before.chat_input@)));
    }
}

/// A request has succeeded exactly where no error came and its status is from
/// 200 to 299. Its answer is what came back; that of a failed one is the error.
pub proof fn law_answer_is_what_came_back(
    entry: &ChatEntry,
    outcome: &ModelTestOutcome,
    finished_at: Timestamp,
)
    requires
        is_answer(entry, outcome, finished_at),
    ensures
        entry.role == ChatRole::Assistant,
        entry.error <==> outcome.error is Some || outcome.status < 200 || outcome.status > 299,
        !entry.error ==> entry.text@ == outcome.output_text@ && entry.reasoning@
            == outcome.reasoning_text@,
        outcome.error matches Some(message) ==> entry.text@ == message@ && entry.reasoning@.len()
            == 0,
        entry.record matches Some(record) && record.finished_at == finished_at && record.status
            == outcome.status && record.error == outcome.error && record.duration_ms
            == outcome.duration_ms && record.total_tokens == outcome.usage.total_tokens
            && record.model == outcome.model && record.upstream_name == outcome.upstream_name,
{
}

/// The end of a request is recorded behind the earlier ones and ends the part
/// of the bench that it belongs to; the other part goes on.
pub proof fn law_end_is_recorded(
    before: &ModelTestUi,
    after: &ModelTestUi,
    kind: ModelTestKind,
    outcome: ModelTestOutcome,
    finished_at: Timestamp,
)
    requires
        after.is_after(before, kind, outcome, finished_at),
    ensures
        after.history@.len() == before.history@.len() + 1,
        forall|i: int| 0 <= i < before.history@.len() ==> after.history@[i] == before.history@[i],
        after.history@.last().status == outcome.status,
        after.history@.last().finished_at == finished_at,
        after.history@.last().first_token_ms == outcome.first_token_ms,
        kind == ModelTestKind::Single ==> after.single_result.started is None
            && after.single_result.outcome == Some(outcome) && after.chat_messages
            == before.chat_messages && after.chat_running == before.chat_running,
        kind == ModelTestKind::Chat ==> !after.chat_running && after.chat_messages@.len()
            == before.chat_messages@.len() + 1 && after.chat_messages@.last().role
            == ChatRole::Assistant && after.single_result == before.single_result,
{
    assert forall|i: int| 0 <= i < before.history@.len() implies after.history@[i]
        == before.history@[i] by {
        assert(after.history@.drop_last()[i] == after.history@[i]);
    }
}

/// The end of a request is called a success exactly where it is one; a failed
/// one is told with its error.
pub proof fn law_end_is_told(outcome: &ModelTestOutcome)
    ensures
        outcome.error matches Some(message) ==> finished_text(outcome) == "测试失败: "@ + message@,
        outcome.error is None && 200 <= outcome.status <= 299 ==> (
        "测试完成: "@ + number::int_text(outcome.duration_ms as int) + " ms"@).is_prefix_of(
            finished_text(outcome),
        ),
        outcome.error is None && !(200 <= outcome.status <= 299) ==> "测试失败: "@.is_prefix_of(
            finished_text(outcome),
        ),
{
    if outcome.error is None && 200 <= outcome.status <= 299 {
        let p = "测试完成: "@ + number::int_text(outcome.duration_ms as int) + " ms"@;
        let m = number::int_text(outcome.duration_ms as int);
        reveal_strlit(" ms");
        reveal_strlit(" ms, 首 token ");
        let t = finished_text(outcome);
        assert(t.take(p.len() as int) =~= p);
    }
}

} // verus!
