//! The window of the pricing script: what it says of a script, and what a trial
//! of it shows.

use crate::clock;
use crate::clock::{CivilTime, Timestamp};
use crate::double;
use crate::float64::Double;
use crate::models::{TokenUsage, Upstream};
use crate::number;
use crate::text;
use crate::tokens::UsdCnyRate;
use crate::upstreams;
use vstd::prelude::*;

verus! {

/// What is in the window.
#[derive(Debug)]
pub struct PricingScriptUi {
    pub open: bool,
    pub docs_open: bool,
    pub enabled: bool,
    pub source: String,
    pub compile_message: String,
    pub compile_ok: bool,
    pub preview_model: String,
    pub preview_input: String,
    pub preview_output: String,
    pub preview_cache_read: String,
    pub preview_cache_write: String,
    pub preview_upstream_id: Option<String>,
    pub preview_script: String,
    pub preview_builtin: String,
    pub preview_logs: String,
}

/// What is said of a script that compiles, or the error of one that does not.
pub open spec fn compile_text(source: Seq<char>, error: Option<Seq<char>>) -> Seq<char> {
    match error {
        Some(message) => message,
        None => if text::trimmed(source).len() == 0 {
            "空脚本将使用内置公式"@
        } else {
            "编译通过"@
        },
    }
}

/// What the user did in the window besides typing.
#[derive(Debug, Clone, Copy, PartialEq, Eq, Structural)]
pub struct WindowActions {
    pub save: bool,
    pub cancel: bool,
    /// Whether the window's own button left it open.
    pub open: bool,
}

/// What a trial of a script gave.
#[derive(Debug)]
pub struct Preview {
    pub script_cost: Option<Double>,
    pub builtin_cost: Option<Double>,
    pub script_error: Option<String>,
    pub runtime_error: Option<String>,
    pub logs: Vec<String>,
}

/// A cost in dollars with six decimals.
pub open spec fn cost_text(value: Option<Double>) -> Seq<char> {
    match value {
        Some(v) => double::fixed(v, 6) + " USD"@,
        None => "无"@,
    }
}

/// A cost in dollars with six decimals.
pub fn format_optional_cost(value: Option<Double>) -> (r: String)
    requires
        value matches Some(v) ==> v.wf(),
    ensures
        r@ == cost_text(value),
{
    match value {
        Some(v) => text::concat(v.to_fixed(6).as_str(), " USD"),
        None => "无".to_string(),
    }
}

/// Lines with line feeds between them.
pub open spec fn joined_lines(lines: Seq<String>) -> Seq<char>
    decreases lines.len(),
{
    if lines.len() == 0 {
        Seq::empty()
    } else if lines.len() == 1 {
        lines[0]@
    } else {
        joined_lines(lines.drop_last()) + "\n"@ + lines.last()@
    }
}

/// Lines with line feeds between them.
pub fn join_lines(lines: &Vec<String>) -> (r: String)
    ensures
        r@ == joined_lines(lines@),
{
    let mut out: String = String::new();
    let mut i: usize = 0;
    while i < lines.len()
        invariant
            i <= lines@.len(),
            out@ == joined_lines(lines@.take(i as int)),
        decreases lines@.len() - i,
    {
        proof {
            let longer = lines@.take(i as int + 1);
            assert(longer.drop_last() =~= lines@.take(i as int));
            assert(longer.last() == lines@[i as int]);
        }
        if i == 0 {
            out = lines[0].clone();
        } else {
            out = text::concat3(out.as_str(), "\n", lines[i].as_str());
        }
        i = i + 1;
    }
    proof {
        assert(lines@.take(lines@.len() as int) =~= lines@);
    }
    out
}

/// The number of tokens that an input writes: none where it writes no number
/// or a negative one.
pub open spec fn count_of(input: Seq<char>) -> i64 {
    match number::int_of_text(text::trimmed(input)) {
        Some(n) => if 0 <= n <= i64::MAX {
            n as i64
        } else {
            0
        },
        None => 0,
    }
}

/// The number of tokens that an input writes.
pub fn parse_i64_or_zero(value: &str) -> (r: i64)
    ensures
        r == count_of(value@),
{
    let bare: String = text::trim(value);
    match number::parse_i64(bare.as_str()) {
        Some(n) => if n >= 0 {
            n
        } else {
            0
        },
        None => 0,
    }
}

impl PricingScriptUi {
    /// The window before it was opened.
    pub fn new() -> (r: Self)
        ensures
            !r.open,
            !r.docs_open,
            !r.enabled,
            r.source@.len() == 0,
            r.compile_message@.len() == 0,
            r.compile_ok,
            r.preview_model@ == "gpt-5-codex"@,
            r.preview_input@ == "1000"@,
            r.preview_output@ == "200"@,
            r.preview_cache_read@ == "0"@,
            r.preview_cache_write@ == "0"@,
            r.preview_upstream_id is None,
            r.preview_script@.len() == 0,
            r.preview_builtin@.len() == 0,
            r.preview_logs@.len() == 0,
    {
        PricingScriptUi {
            open: false,
            docs_open: false,
            enabled: false,
            source: String::new(),
            compile_message: String::new(),
            compile_ok: true,
            preview_model: "gpt-5-codex".to_string(),
            preview_input: "1000".to_string(),
            preview_output: "200".to_string(),
            preview_cache_read: "0".to_string(),
            preview_cache_write: "0".to_string(),
            preview_upstream_id: None,
            preview_script: String::new(),
            preview_builtin: String::new(),
            preview_logs: String::new(),
        }
    }

    /// Opens the window on the stored script, of which it is known whether it
    /// compiles. What an earlier trial showed is gone.
    pub fn open_window(&mut self, enabled: bool, source: String, error: Option<String>)
        ensures
            final(self).compile_message@ == compile_text(source@, text::opt_view(error)),
            final(self).preview_script@.len() == 0,
            final(self).preview_builtin@.len() == 0,
            final(self).preview_logs@.len() == 0,
            *final(self) == (PricingScriptUi {
                open: true,
                enabled,
                source,
                compile_message: final(self).compile_message,
                compile_ok: error is None,
                preview_script: final(self).preview_script,
                preview_builtin: final(self).preview_builtin,
                preview_logs: final(self).preview_logs,
                ..*old(self)
            }),
    {
        self.enabled = enabled;
        self.source = source;
        self.refresh_pricing_compile_message(error);
        self.preview_script = String::new();
        self.preview_builtin = String::new();
        self.preview_logs = String::new();
        self.open = true;
    }

    /// Takes in whether the script compiles.
    pub fn refresh_pricing_compile_message(&mut self, error: Option<String>)
        ensures
            final(self).compile_message@ == compile_text(old(self).source@, text::opt_view(error)),
            *final(self) == (PricingScriptUi {
                compile_message: final(self).compile_message,
                compile_ok: error is None,
                ..*old(self)
            }),
    {
        match error {
            Some(message) => {
                self.compile_ok = false;
                self.compile_message = message;
            },
            None => {
                self.compile_ok = true;
                self.compile_message =
                if text::is_blank(self.source.as_str()) {
                    "空脚本将使用内置公式".to_string()
                } else {
                    "编译通过".to_string()
                };
            },
        }
    }

    /// Puts another script into the window, of which it is known whether it
    /// compiles.
    pub fn fill_in(&mut self, source: String, error: Option<String>)
        ensures
            final(self).compile_message@ == compile_text(source@, text::opt_view(error)),
            *final(self) == (PricingScriptUi {
                source,
                compile_message: final(self).compile_message,
                compile_ok: error is None,
                ..*old(self)
            }),
    {
        self.source = source;
        self.refresh_pricing_compile_message(error);
    }

    /// Whether the window stays open where nothing was saved: saving decides
    /// for itself, and a press on cancel closes it.
    pub fn after_actions(&mut self, actions: WindowActions)
        ensures
            *final(self) == (PricingScriptUi {
                open: if actions.save {
                    old(self).open
                } else {
                    actions.open && !actions.cancel
                },
                ..*old(self)
            }),
    {
        if !actions.save {
            self.open = actions.open && !actions.cancel;
        }
    }

    /// The window once saving was tried: it closes where that worked.
    pub fn saved(&mut self, ok: bool)
        ensures
            *final(self) == (PricingScriptUi { open: old(self).open && !ok, ..*old(self) }),
    {
        if ok {
            self.open = false;
        }
    }

    /// The tokens of a trial.
    pub open spec fn preview_counts(&self) -> TokenUsage {
        TokenUsage {
            input_tokens: count_of(self.preview_input@),
            output_tokens: count_of(self.preview_output@),
            cache_read_tokens: count_of(self.preview_cache_read@),
            cache_creation_tokens: count_of(self.preview_cache_write@),
            total_tokens: 0,
        }
    }

    /// The tokens of a trial, with their sum.
    pub fn preview_usage(&self) -> (r: TokenUsage)
        requires
            self.preview_counts().sum_fits(),
        ensures
            r == self.preview_counts().finished(),
    {
        let mut usage: TokenUsage = TokenUsage {
            input_tokens: parse_i64_or_zero(self.preview_input.as_str()),
            output_tokens: parse_i64_or_zero(self.preview_output.as_str()),
            cache_read_tokens: parse_i64_or_zero(self.preview_cache_read.as_str()),
            cache_creation_tokens: parse_i64_or_zero(self.preview_cache_write.as_str()),
            total_tokens: 0,
        };
        usage.finish();
        usage
    }

    /// The model of a trial, where one was typed.
    pub fn preview_model_name(&self) -> (r: Option<String>)
        ensures
            text::opt_view(r) == text::trimmed_non_empty(self.preview_model@),
    {
        text::trimmed_string(self.preview_model.as_str())
    }

    /// Takes in what a trial gave.
    pub fn show_preview(&mut self, preview: &Preview)
        requires
            preview.script_cost matches Some(v) ==> v.wf(),
            preview.builtin_cost matches Some(v) ==> v.wf(),
        ensures
            final(self).preview_script@ == match (preview.script_error, preview.runtime_error) {
                (Some(message), _) => "失败: "@ + message@,
                (None, Some(message)) => "失败: "@ + message@,
                (None, None) => cost_text(preview.script_cost),
            },
            final(self).preview_builtin@ == cost_text(preview.builtin_cost),
            final(self).preview_logs@ == joined_lines(preview.logs@),
            *final(self) == (PricingScriptUi {
                preview_script: final(self).preview_script,
                preview_builtin: final(self).preview_builtin,
                preview_logs: final(self).preview_logs,
                ..*old(self)
            }),
    {
        self.preview_script =
        match (&preview.script_error, &preview.runtime_error) {
            (Some(message), _) => text::concat("失败: ", message.as_str()),
            (None, Some(message)) => text::concat("失败: ", message.as_str()),
            (None, None) => format_optional_cost(preview.script_cost),
        };
        self.preview_builtin = format_optional_cost(preview.builtin_cost);
        self.preview_logs = join_lines(&preview.logs);
    }

    /// What the window shows of a trial, where there was one.
    pub fn preview_line(&self) -> (r: Option<String>)
        ensures
            text::opt_view(r) == if self.preview_script@.len() > 0 || self.preview_builtin@.len()
                > 0 {
                Some("脚本: "@ + self.preview_script@ + "    内置: "@ + self.preview_builtin@)
            } else {
                None
            },
    {
        if !text::is_empty(self.preview_script.as_str()) || !text::is_empty(
            self.preview_builtin.as_str(),
        ) {
            Some(
                text::concat4(
                    "脚本: ",
                    self.preview_script.as_str(),
                    "    内置: ",
                    self.preview_builtin.as_str(),
                ),
            )
        } else {
            None
        }
    }
}

/// What is said of the exchange rate of a trial.
pub open spec fn rate_text(rate: Option<UsdCnyRate>) -> Seq<char> {
    match rate {
        Some(fx) => "1 USD = "@ + double::fixed(fx.rate, 4) + " CNY"@,
        None => "无汇率缓存"@,
    }
}

/// What is said of a trial, the moment of it being written out.
pub open spec fn preview_text(
    stamp: Seq<char>,
    local: CivilTime,
    rate: Option<UsdCnyRate>,
) -> Seq<char> {
    "试算时间 "@ + stamp + " (本地 "@ + number::padded_text(local.hour as nat, 2) + ":"@
        + number::padded_text(local.minute as nat, 2) + " 时), "@ + rate_text(rate)
}

/// What is said of a trial, the moment of it being written out.
pub fn preview_status_with(stamp: &str, local: CivilTime, rate: Option<UsdCnyRate>) -> (r: String)
    requires
        rate matches Some(fx) ==> fx.rate.wf(),
    ensures
        r@ == preview_text(stamp@, local, rate),
{
    let fx: String = match rate {
        Some(fx) => text::concat3("1 USD = ", fx.rate.to_fixed(4).as_str(), " CNY"),
        None => "无汇率缓存".to_string(),
    };
    let hour: String = number::padded(local.hour as u64, 2);
    let minute: String = number::padded(local.minute as u64, 2);
    let head: String = text::concat4("试算时间 ", stamp, " (本地 ", hour.as_str());
    let whole: String = text::concat4(head.as_str(), ":", minute.as_str(), " 时), ");
    text::concat(whole.as_str(), fx.as_str())
}

/// What is said of a trial: its moment in UTC and, by the hour, in the
/// machine's time zone.
pub fn preview_status(at: Timestamp, rate: Option<UsdCnyRate>) -> (r: String)
    requires
        clock::in_calendar(at.seconds),
        at.nanos < 1_000_000_000,
        rate matches Some(fx) ==> fx.rate.wf(),
    ensures
        exists|stamp: Seq<char>, local: CivilTime|
            clock::is_rfc3339(stamp, at, 0) && local.wf() && clock::shown_at(local, at.seconds)
                && r@ == #[trigger] preview_text(stamp, local, rate),
{
    let stamp: String = clock::utc_rfc3339(at);
    let local: CivilTime = clock::utc_to_local(at);
    preview_status_with(stamp.as_str(), local, rate)
}

/// What is said once a script was saved.
pub fn saved_status(ready: bool, enabled: bool) -> (r: &'static str)
    ensures
        r@ == if ready {
            "计价脚本已保存并启用"@
        } else if enabled {
            "计价脚本已保存, 但编译失败, 已回退内置公式"@
        } else {
            "计价脚本已保存"@
        },
{
    if ready {
        "计价脚本已保存并启用"
    } else if enabled {
        "计价脚本已保存, 但编译失败, 已回退内置公式"
    } else {
        "计价脚本已保存"
    }
}

/// What is shown as the upstream of a trial.
pub fn preview_upstream_label(selected: &Option<String>, upstreams: &Vec<Upstream>) -> (r: String)
    ensures
        r@ == match *selected {
            Some(id) => match upstreams::upstream_place(upstreams@, id@, 0) {
                Some(i) => upstreams@[i].name@,
                None => "无"@,
            },
            None => "无"@,
        },
{
    match selected {
        Some(id) => match upstreams::find_upstream(upstreams, id.as_str()) {
            Some(upstream) => upstream.name.clone(),
            None => "无".to_string(),
        },
        None => "无".to_string(),
    }
}

/// A trial never counts tokens below zero.
pub proof fn law_trial_counts_nothing_negative(ui: &PricingScriptUi)
    ensures
        ui.preview_counts().input_tokens >= 0,
        ui.preview_counts().output_tokens >= 0,
        ui.preview_counts().cache_read_tokens >= 0,
        ui.preview_counts().cache_creation_tokens >= 0,
{
}

/// A trial counts what stands in its own fields: a whole number from zero on as
/// it is, anything else as nothing.
pub proof fn law_trial_counts_its_own_fields(ui: &PricingScriptUi, n: int)
    requires
        0 <= n <= i64::MAX,
    ensures
        number::int_of_text(text::trimmed(ui.preview_input@)) == Some(n)
            ==> ui.preview_counts().input_tokens == n,
        number::int_of_text(text::trimmed(ui.preview_output@)) == Some(n)
            ==> ui.preview_counts().output_tokens == n,
        number::int_of_text(text::trimmed(ui.preview_cache_read@)) == Some(n)
            ==> ui.preview_counts().cache_read_tokens == n,
        number::int_of_text(text::trimmed(ui.preview_cache_write@)) == Some(n)
            ==> ui.preview_counts().cache_creation_tokens == n,
        number::int_of_text(text::trimmed(ui.preview_input@)) is None
            ==> ui.preview_counts().input_tokens == 0,
        number::int_of_text(text::trimmed(ui.preview_output@)) is None
            ==> ui.preview_counts().output_tokens == 0,
        ui.preview_counts().total_tokens == 0,
{
}

/// An error is told as it is; a script without one is said to compile, unless
/// it is blank, when the built-in formula is named.
pub proof fn law_compile_message_tells_the_error(source: Seq<char>, message: Seq<char>)
    ensures
        compile_text(source, Some(message)) == message,
        compile_text(source, None) == "编译通过"@ <==> text::trimmed(source).len() > 0,
        compile_text(source, None) == "空脚本将使用内置公式"@ <==> text::trimmed(source).len() == 0,
{
    reveal_strlit("编译通过");
    reveal_strlit("空脚本将使用内置公式");
    assert("编译通过"@.len() == 4);
    assert("空脚本将使用内置公式"@.len() == 10);
}

/// Lines are joined in their order, with a line feed between them.
pub proof fn law_lines_are_joined_in_order(lines: Seq<String>, line: String)
    ensures
        lines.len() > 0 ==> joined_lines(lines.push(line)) == joined_lines(lines) + "\n"@ + line@,
        lines.len() == 0 ==> joined_lines(lines.push(line)) == line@ && joined_lines(lines).len()
            == 0,
{
    assert(lines.push(line).drop_last() =~= lines);
}

} // verus!
