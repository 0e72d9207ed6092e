//! What is asked of a model: the settings of the test bench and the request
//! that they give.

use super::ChatRole;
use crate::number;
use crate::text;
use vstd::prelude::*;

verus! {

/// A message that is sent.
#[derive(Debug)]
pub struct ModelTestMessage {
    pub role: ChatRole,
    pub content: String,
}

/// What messages say.
pub open spec fn messages_view(messages: Seq<ModelTestMessage>) -> Seq<(ChatRole, Seq<char>)> {
    messages.map_values(|m: ModelTestMessage| (m.role, m.content@))
}

/// A request to a model.
#[derive(Debug)]
pub struct ModelTestParams {
    pub model: String,
    pub messages: Vec<ModelTestMessage>,
    pub stream: bool,
    pub max_tokens: i64,
    pub reasoning_effort: Option<String>,
    pub timeout_seconds: u64,
}

/// The settings of a request, as they were typed.
#[derive(Debug)]
pub struct TestSettings {
    pub model_input: String,
    pub stream: bool,
    pub max_tokens_input: String,
    pub reasoning_enabled: bool,
    pub reasoning_effort_input: String,
    pub timeout_input: String,
}

/// The number of tokens that an input allows: a positive one.
pub open spec fn max_tokens_of(input: Seq<char>) -> Option<int> {
    match number::int_of_text(text::trimmed(input)) {
        Some(n) => if 0 < n <= i64::MAX {
            Some(n)
        } else {
            None
        },
        None => None,
    }
}

/// The seconds that an input allows: up to ten minutes.
pub open spec fn timeout_of(input: Seq<char>) -> Option<int> {
    match number::int_of_text(text::trimmed(input)) {
        Some(n) => if 1 <= n <= 600 {
            Some(n)
        } else {
            None
        },
        None => None,
    }
}

impl TestSettings {
    /// The settings before anything was typed.
    pub open spec fn is_initial(&self) -> bool {
        &&& self.model_input@.len() == 0
        &&& self.stream
        &&& self.max_tokens_input@ == "64"@
        &&& !self.reasoning_enabled
        &&& self.reasoning_effort_input@ == "medium"@
        &&& self.timeout_input@ == "120"@
    }

    /// The settings before anything was typed.
    pub fn new() -> (r: Self)
        ensures
            r.is_initial(),
    {
        TestSettings {
            model_input: String::new(),
            stream: true,
            max_tokens_input: "64".to_string(),
            reasoning_enabled: false,
            reasoning_effort_input: "medium".to_string(),
            timeout_input: "120".to_string(),
        }
    }

    /// The first thing that is wrong with the settings.
    pub open spec fn problem(&self) -> Option<Seq<char>> {
        if text::trimmed(self.model_input@).len() == 0 {
            Some("请填写模型名"@)
        } else if max_tokens_of(self.max_tokens_input@) is None {
            Some("max tokens 需要为正整数"@)
        } else if timeout_of(self.timeout_input@) is None {
            Some("超时需要为 1-600 的整数秒"@)
        } else {
            None
        }
    }

    /// Whether a request is the one that the settings give for some messages.
    pub open spec fn gives(
        &self,
        params: &ModelTestParams,
        messages: Seq<(ChatRole, Seq<char>)>,
    ) -> bool {
        &&& params.model@ == text::trimmed(self.model_input@)
        &&& messages_view(params.messages@) == messages
        &&& params.stream == self.stream
        &&& max_tokens_of(self.max_tokens_input@) == Some(params.max_tokens as int)
        &&& text::opt_view(params.reasoning_effort) == if self.reasoning_enabled {
            text::trimmed_non_empty(self.reasoning_effort_input@)
        } else {
            None
        }
        &&& timeout_of(self.timeout_input@) == Some(params.timeout_seconds as int)
    }

    /// The request that the settings give for some messages, or the first thing
    /// that is wrong with them.
    pub fn build_model_test_params(&self, messages: Vec<ModelTestMessage>) -> (r: Result<
        ModelTestParams,
        String,
    >)
        ensures
            match r {
                Ok(params) => self.problem() is None && self.gives(
                    &params,
                    messages_view(messages@),
                ),
                Err(message) => self.problem() == Some(message@),
            },
    {
        let model: String = text::trim(self.model_input.as_str());
        if text::is_empty(model.as_str()) {
            return Err("请填写模型名".to_string());
        }
        let tokens: String = text::trim(self.max_tokens_input.as_str());
        let max_tokens: i64 = match number::parse_i64(tokens.as_str()) {
            Some(n) => n,
            None => {
                return Err("max tokens 需要为正整数".to_string());
            },
        };
        if max_tokens <= 0 {
            return Err("max tokens 需要为正整数".to_string());
        }
        let seconds: String = text::trim(self.timeout_input.as_str());
        let timeout_seconds: u64 = match number::parse_u64(seconds.as_str()) {
            Some(n) => n,
            None => {
                return Err("超时需要为 1-600 的整数秒".to_string());
            },
        };
        if timeout_seconds < 1 || timeout_seconds > 600 {
            return Err("超时需要为 1-600 的整数秒".to_string());
        }
        let reasoning_effort: Option<String> = if self.reasoning_enabled {
            text::trimmed_string(self.reasoning_effort_input.as_str())
        } else {
            None
        };
        Ok(
            ModelTestParams {
                model,
                messages,
                stream: self.stream,
                max_tokens,
                reasoning_effort,
                timeout_seconds,
            },
        )
    }
}

/// The settings that nobody touched lack nothing but a model.
pub proof fn law_initial_settings_work(settings: &TestSettings, touched: &TestSettings)
    requires
        settings.is_initial(),
        touched == (TestSettings { model_input: touched.model_input, ..*settings }),
        text::trimmed(touched.model_input@).len() > 0,
    ensures
        touched.problem() is None,
        max_tokens_of(touched.max_tokens_input@) == Some(64int),
        timeout_of(touched.timeout_input@) == Some(120int),
{
    reveal_strlit("64");
    reveal_strlit("120");
    let tokens = touched.max_tokens_input@;
    let seconds = touched.timeout_input@;
    reveal_with_fuel(text::trimmed_start, 1);
    reveal_with_fuel(text::trimmed_end, 1);
    reveal_with_fuel(number::digits_value, 4);
    assert(text::trimmed(tokens) == tokens);
    assert(text::trimmed(seconds) == seconds);
}

/// Settings are refused exactly where no model is named, the most tokens are
/// not a positive whole number, or the seconds are not from 1 to 600.
pub proof fn law_settings_are_refused_outside_their_ranges(s: &TestSettings)
    ensures
        s.problem() is None <==> {
            &&& text::trimmed(s.model_input@).len() > 0
            &&& number::int_of_text(text::trimmed(s.max_tokens_input@)) matches Some(n) && 1 <= n
                <= i64::MAX
            &&& number::int_of_text(text::trimmed(s.timeout_input@)) matches Some(n) && 1 <= n
                <= 600
        },
{
}

/// A request asks for what was typed: its tokens and seconds are the numbers
/// in their own fields, and an effort is asked for only where that is switched
/// on and named.
pub proof fn law_request_asks_for_what_was_typed(
    s: &TestSettings,
    params: &ModelTestParams,
    messages: Seq<(ChatRole, Seq<char>)>,
)
    requires
        s.gives(params, messages),
    ensures
        number::int_of_text(text::trimmed(s.max_tokens_input@)) == Some(params.max_tokens as int),
        number::int_of_text(text::trimmed(s.timeout_input@)) == Some(params.timeout_seconds as int),
        params.model@ == text::trimmed(s.model_input@),
        params.stream == s.stream,
        params.reasoning_effort is Some <==> s.reasoning_enabled && text::trimmed(
            s.reasoning_effort_input@,
        ).len() > 0,
        params.reasoning_effort matches Some(effort) ==> effort@ == text::trimmed(
            s.reasoning_effort_input@,
        ),
        params.messages@.len() == messages.len(),
{
    assert(messages_view(params.messages@).len() == params.messages@.len());
}

} // verus!
