//! What the request log is filtered by: the editor's fields, and the filter
//! that they make.

use crate::clock;
use crate::clock::{CivilTime, Timestamp};
use crate::double;
use crate::float64::Double;
use crate::models;
use crate::number;
use crate::text;
use crate::token_amount;
use vstd::prelude::*;

verus! {

/// Where requests came from.
#[derive(Debug, Clone, Copy, PartialEq, Eq, Structural)]
pub enum RequestLogSource {
    Proxy,
    TestBench,
}

/// A filter on where requests came from.
#[derive(Debug, Clone, Copy, PartialEq, Eq, Structural)]
pub enum LogSourceFilter {
    All,
    Proxy,
    TestBench,
}

impl LogSourceFilter {
    /// The name that is shown.
    pub fn label(self) -> (r: &'static str)
        ensures
            r@ == match self {
                LogSourceFilter::All => "全部来源"@,
                LogSourceFilter::Proxy => "仅代理"@,
                LogSourceFilter::TestBench => "仅测试台"@,
            },
    {
        match self {
            LogSourceFilter::All => "全部来源",
            LogSourceFilter::Proxy => "仅代理",
            LogSourceFilter::TestBench => "仅测试台",
        }
    }

    /// The one source that is let through.
    pub open spec fn only(self) -> Option<RequestLogSource> {
        match self {
            LogSourceFilter::All => None,
            LogSourceFilter::Proxy => Some(RequestLogSource::Proxy),
            LogSourceFilter::TestBench => Some(RequestLogSource::TestBench),
        }
    }
}

/// A filter on the status of a request.
#[derive(Debug, Clone, Copy, PartialEq, Eq, Structural)]
pub enum LogStatusFilter {
    All,
    Success,
    Error,
    ClientError,
    ServerError,
    Custom,
}

/// Bounds for a whole number, as typed.
#[derive(Debug)]
pub struct I64RangeFilter {
    pub min: String,
    pub max: String,
}

/// Bounds for an amount of money, as typed.
#[derive(Debug)]
pub struct F64RangeFilter {
    pub min: String,
    pub max: String,
}

/// A bound in time, in the machine's time zone.
#[derive(Debug, Clone, Copy, PartialEq, Eq, Structural)]
pub struct LogDateTimeFilter {
    pub enabled: bool,
    pub value: CivilTime,
}

/// The fields of the filter's editor.
#[derive(Debug)]
pub struct LogFilterState {
    pub model: Option<String>,
    pub target_model: Option<String>,
    pub upstream: Option<String>,
    pub reasoning_effort: Option<String>,
    pub endpoint: Option<String>,
    pub status: LogStatusFilter,
    pub source: LogSourceFilter,
    pub status_custom: I64RangeFilter,
    pub price_usd: F64RangeFilter,
    pub started_at: LogDateTimeFilter,
    pub ended_at: LogDateTimeFilter,
    pub duration_ms: I64RangeFilter,
    pub first_token_ms: I64RangeFilter,
    pub input_tokens: I64RangeFilter,
    pub output_tokens: I64RangeFilter,
    pub cache_read_tokens: I64RangeFilter,
    pub cache_creation_tokens: I64RangeFilter,
    pub total_tokens: I64RangeFilter,
}

/// The filter that the log is read with.
#[derive(Debug)]
pub struct RequestLogFilter {
    pub model: Option<String>,
    pub target_model: Option<String>,
    pub upstream: Option<String>,
    pub reasoning_effort: Option<String>,
    pub endpoint: Option<String>,
    pub status_min: Option<i64>,
    pub status_max: Option<i64>,
    pub duration_ms_min: Option<i64>,
    pub duration_ms_max: Option<i64>,
    pub first_token_ms_min: Option<i64>,
    pub first_token_ms_max: Option<i64>,
    pub input_tokens_min: Option<i64>,
    pub input_tokens_max: Option<i64>,
    pub output_tokens_min: Option<i64>,
    pub output_tokens_max: Option<i64>,
    pub cache_read_tokens_min: Option<i64>,
    pub cache_read_tokens_max: Option<i64>,
    pub cache_creation_tokens_min: Option<i64>,
    pub cache_creation_tokens_max: Option<i64>,
    pub total_tokens_min: Option<i64>,
    pub total_tokens_max: Option<i64>,
    pub estimated_cost_usd_min: Option<Double>,
    pub estimated_cost_usd_max: Option<Double>,
    pub source: Option<RequestLogSource>,
    pub started_at: Option<Timestamp>,
    pub ended_at: Option<Timestamp>,
}

/// An optional number as a mathematical one.
pub open spec fn int_opt(n: Option<i64>) -> Option<int> {
    match n {
        Some(n) => Some(n as int),
        None => None,
    }
}

/// The whole number that a field holds, nothing where it is blank.
pub open spec fn int_entry(label: Seq<char>, value: Seq<char>) -> Result<Option<int>, Seq<char>> {
    let bare = text::trimmed(value);
    if bare.len() == 0 {
        Ok(None)
    } else {
        match number::int_of_text(bare) {
            Some(n) => if i64::MIN <= n <= i64::MAX {
                Ok(Some(n))
            } else {
                Err(label + " 需要填写整数"@)
            },
            None => Err(label + " 需要填写整数"@),
        }
    }
}

/// The amount that a field holds, with or without a dollar sign; nothing where
/// it is blank.
pub open spec fn real_entry(label: Seq<char>, value: Seq<char>) -> Result<
    Option<Double>,
    Seq<char>,
> {
    let bare = text::without_leading(text::trimmed(value), '$');
    if bare.len() == 0 {
        Ok(None)
    } else {
        match double::of_text(bare) {
            Some(x) => if x is Finite {
                Ok(Some(x))
            } else {
                Err(label + " 需要填写有效数字"@)
            },
            None => Err(label + " 需要填写数字"@),
        }
    }
}

/// What is wrong with two bounds: the first that cannot be read, or that they
/// are the wrong way round.
pub open spec fn int_range_problem(
    label: Seq<char>,
    min: Result<Option<int>, Seq<char>>,
    max: Result<Option<int>, Seq<char>>,
) -> Option<Seq<char>> {
    match (min, max) {
        (Err(e), _) => Some(e),
        (_, Err(e)) => Some(e),
        (Ok(Some(a)), Ok(Some(b))) => if a > b {
            Some(label + " 最小值不能大于最大值"@)
        } else {
            None
        },
        _ => None,
    }
}

/// What is wrong with two bounds for an amount of money.
pub open spec fn real_range_problem(
    label: Seq<char>,
    min: Result<Option<Double>, Seq<char>>,
    max: Result<Option<Double>, Seq<char>>,
) -> Option<Seq<char>> {
    match (min, max) {
        (Err(e), _) => Some(e),
        (_, Err(e)) => Some(e),
        (Ok(Some(a)), Ok(Some(b))) => if double::below(b, a) {
            Some(label + " 最小值不能大于最大值"@)
        } else {
            None
        },
        _ => None,
    }
}

/// The value of a bound that was read.
pub open spec fn read<T>(entry: Result<Option<T>, Seq<char>>) -> Option<T> {
    match entry {
        Ok(value) => value,
        Err(_) => None,
    }
}

/// Whether an outcome is a given problem or its absence.
pub open spec fn reports(r: Result<(), String>, problem: Option<Seq<char>>) -> bool {
    match (r, problem) {
        (Ok(_), None) => true,
        (Err(message), Some(wanted)) => message@ == wanted,
        _ => false,
    }
}

/// Whether an outcome is the given amount or message.
pub open spec fn is_real_outcome(
    r: Result<Option<Double>, String>,
    wanted: Result<Option<Double>, Seq<char>>,
) -> bool {
    match (r, wanted) {
        (Ok(v), Ok(w)) => v == w && (v matches Some(x) ==> x.wf()),
        (Err(e), Err(m)) => e@ == m,
        _ => false,
    }
}

/// The whole number that a field holds.
pub fn parse_optional_i64(label: &str, value: &str) -> (r: Result<Option<i64>, String>)
    ensures
        token_amount::is_optional_outcome(r, int_entry(label@, value@)),
{
    let bare: String = text::trim(value);
    if text::is_empty(bare.as_str()) {
        return Ok(None);
    }
    match number::parse_i64(bare.as_str()) {
        Some(n) => Ok(Some(n)),
        None => Err(text::concat(label, " 需要填写整数")),
    }
}

/// The amount of money that a field holds.
pub fn parse_optional_amount(label: &str, value: &str) -> (r: Result<Option<Double>, String>)
    ensures
        is_real_outcome(r, real_entry(label@, value@)),
{
    let trimmed: String = text::trim(value);
    let bare: String = text::strip_leading(trimmed.as_str(), '$');
    if text::is_empty(bare.as_str()) {
        return Ok(None);
    }
    match Double::from_text(bare.as_str()) {
        Some(x) => match x {
            Double::Finite { .. } => Ok(Some(x)),
            _ => Err(text::concat(label, " 需要填写有效数字")),
        },
        None => Err(text::concat(label, " 需要填写数字")),
    }
}

impl I64RangeFilter {
    /// Whether nothing was typed.
    pub open spec fn is_blank(&self) -> bool {
        self.min@.len() == 0 && self.max@.len() == 0
    }

    /// Whether a bound is given.
    pub open spec fn active(&self) -> bool {
        text::trimmed(self.min@).len() > 0 || text::trimmed(self.max@).len() > 0
    }

    /// Whether a bound is given.
    pub fn is_active(&self) -> (r: bool)
        ensures
            r == self.active(),
    {
        !text::is_blank(self.min.as_str()) || !text::is_blank(self.max.as_str())
    }

    /// What is wrong with the bounds as whole numbers.
    pub open spec fn int_problem(&self, label: Seq<char>) -> Option<Seq<char>> {
        int_range_problem(label, int_entry(label, self.min@), int_entry(label, self.max@))
    }

    /// What is wrong with the bounds as numbers of tokens.
    pub open spec fn token_problem(&self, label: Seq<char>) -> Option<Seq<char>> {
        int_range_problem(
            label,
            token_amount::optional_amount_of(label, self.min@),
            token_amount::optional_amount_of(label, self.max@),
        )
    }
}

impl F64RangeFilter {
    /// Whether a bound is given.
    pub open spec fn active(&self) -> bool {
        text::trimmed(self.min@).len() > 0 || text::trimmed(self.max@).len() > 0
    }

    /// Whether a bound is given.
    pub fn is_active(&self) -> (r: bool)
        ensures
            r == self.active(),
    {
        !text::is_blank(self.min.as_str()) || !text::is_blank(self.max.as_str())
    }

    /// What is wrong with the bounds.
    pub open spec fn problem(&self, label: Seq<char>) -> Option<Seq<char>> {
        real_range_problem(label, real_entry(label, self.min@), real_entry(label, self.max@))
    }
}

/// Compares two bounds that were read.
fn in_order(label: &str, min: Option<i64>, max: Option<i64>) -> (r: Result<(), String>)
    ensures
        reports(r, int_range_problem(label@, Ok(int_opt(min)), Ok(int_opt(max)))),
{
    match (min, max) {
        (Some(a), Some(b)) => {
            if a > b {
                Err(text::concat(label, " 最小值不能大于最大值"))
            } else {
                Ok(())
            }
        },
        _ => Ok(()),
    }
}

/// Bounds that were read, as whole numbers.
pub open spec fn are_bounds(
    r: Result<(Option<i64>, Option<i64>), String>,
    problem: Option<Seq<char>>,
    min: Result<Option<int>, Seq<char>>,
    max: Result<Option<int>, Seq<char>>,
) -> bool {
    match (r, problem) {
        (Ok(bounds), None) => int_opt(bounds.0) == read(min) && int_opt(bounds.1) == read(max),
        (Err(message), Some(wanted)) => message@ == wanted,
        _ => false,
    }
}

/// Checks bounds as whole numbers and reads them.
pub fn validate_i64_range(label: &str, value: &I64RangeFilter) -> (r: Result<
    (Option<i64>, Option<i64>),
    String,
>)
    ensures
        are_bounds(
            r,
            value.int_problem(label@),
            int_entry(label@, value.min@),
            int_entry(label@, value.max@),
        ),
{
    let min: Option<i64> = match parse_optional_i64(label, value.min.as_str()) {
        Ok(min) => min,
        Err(message) => {
            return Err(message);
        },
    };
    let max: Option<i64> = match parse_optional_i64(label, value.max.as_str()) {
        Ok(max) => max,
        Err(message) => {
            return Err(message);
        },
    };
    match in_order(label, min, max) {
        Ok(_) => Ok((min, max)),
        Err(message) => Err(message),
    }
}

/// Checks bounds as numbers of tokens and reads them.
pub fn validate_token_range(label: &str, value: &I64RangeFilter) -> (r: Result<
    (Option<i64>, Option<i64>),
    String,
>)
    ensures
        are_bounds(
            r,
            value.token_problem(label@),
            token_amount::optional_amount_of(label@, value.min@),
            token_amount::optional_amount_of(label@, value.max@),
        ),
{
    let min: Option<i64> = match token_amount::parse_optional_token_amount(
        label,
        value.min.as_str(),
    ) {
        Ok(min) => min,
        Err(message) => {
            return Err(message);
        },
    };
    let max: Option<i64> = match token_amount::parse_optional_token_amount(
        label,
        value.max.as_str(),
    ) {
        Ok(max) => max,
        Err(message) => {
            return Err(message);
        },
    };
    match in_order(label, min, max) {
        Ok(_) => Ok((min, max)),
        Err(message) => Err(message),
    }
}

/// Checks bounds for an amount of money and reads them.
pub fn validate_amount_range(label: &str, value: &F64RangeFilter) -> (r: Result<
    (Option<Double>, Option<Double>),
    String,
>)
    ensures
        match (r, value.problem(label@)) {
            (Ok(bounds), None) => {
                &&& bounds.0 == read(real_entry(label@, value.min@))
                &&& bounds.1 == read(real_entry(label@, value.max@))
            },
            (Err(message), Some(wanted)) => message@ == wanted,
            _ => false,
        },
{
    let min: Option<Double> = match parse_optional_amount(label, value.min.as_str()) {
        Ok(min) => min,
        Err(message) => {
            return Err(message);
        },
    };
    let max: Option<Double> = match parse_optional_amount(label, value.max.as_str()) {
        Ok(max) => max,
        Err(message) => {
            return Err(message);
        },
    };
    if let Some(a) = min {
        if let Some(b) = max {
            if b.is_below(a) {
                return Err(text::concat(label, " 最小值不能大于最大值"));
            }
        }
    }
    Ok((min, max))
}

/// One for a field that is set.
pub open spec fn flag(set: bool) -> nat {
    if set {
        1
    } else {
        0
    }
}

fn counted(set: bool) -> (r: usize)
    ensures
        r == flag(set),
        r <= 1,
{
    if set {
        1
    } else {
        0
    }
}

/// The first of two problems.
pub open spec fn or_problem(a: Option<Seq<char>>, b: Option<Seq<char>>) -> Option<Seq<char>> {
    match a {
        Some(e) => Some(e),
        None => b,
    }
}

/// The bounds on the status that a filter stands for.
pub open spec fn status_bounds(state: &LogFilterState) -> (Option<int>, Option<int>) {
    match state.status {
        LogStatusFilter::All => (None, None),
        LogStatusFilter::Success => (Some(200), Some(399)),
        LogStatusFilter::Error => (Some(400), None),
        LogStatusFilter::ClientError => (Some(400), Some(499)),
        LogStatusFilter::ServerError => (Some(500), Some(599)),
        LogStatusFilter::Custom => (
            read(int_entry("状态码"@, state.status_custom.min@)),
            read(int_entry("状态码"@, state.status_custom.max@)),
        ),
    }
}

/// What is wrong with a bound in time, its point in time being known where
/// there is one.
pub open spec fn time_problem(
    filter: LogDateTimeFilter,
    label: Seq<char>,
    at: Option<Timestamp>,
) -> Option<Seq<char>> {
    if filter.enabled && at is None {
        Some(label + " 不是有效本地时间"@)
    } else {
        None
    }
}

/// The point in time of a bound, where it is set.
pub open spec fn time_bound(filter: LogDateTimeFilter, at: Option<Timestamp>) -> Option<Timestamp> {
    if filter.enabled {
        at
    } else {
        None
    }
}

/// What is wrong with the bounds in time.
pub open spec fn times_problem(
    state: &LogFilterState,
    started: Option<Timestamp>,
    ended: Option<Timestamp>,
) -> Option<Seq<char>> {
    or_problem(
        time_problem(state.started_at, "开始时间"@, started),
        or_problem(
            time_problem(state.ended_at, "结束时间"@, ended),
            match (time_bound(state.started_at, started), time_bound(state.ended_at, ended)) {
                (Some(a), Some(b)) => if a.is_after(b) {
                    Some("开始时间不能晚于结束时间"@)
                } else {
                    None
                },
                _ => None,
            },
        ),
    )
}

/// What is wrong with the ranges, in the order in which they are looked at.
pub open spec fn ranges_problem(state: &LogFilterState) -> Option<Seq<char>> {
    or_problem(
        state.status_custom.int_problem("状态码"@),
        or_problem(
            state.duration_ms.int_problem("耗时"@),
            or_problem(
                state.first_token_ms.int_problem("首 token"@),
                or_problem(
                    state.input_tokens.token_problem("输入 tokens"@),
                    or_problem(
                        state.output_tokens.token_problem("输出 tokens"@),
                        or_problem(
                            state.cache_read_tokens.token_problem("缓存输入 tokens"@),
                            or_problem(
                                state.cache_creation_tokens.token_problem("写入缓存 tokens"@),
                                or_problem(
                                    state.total_tokens.token_problem("总 tokens"@),
                                    state.price_usd.problem("费用"@),
                                ),
                            ),
                        ),
                    ),
                ),
            ),
        ),
    )
}

/// Whether a filter has the bounds that a range of whole numbers gives.
pub open spec fn has_ints(
    min: Option<i64>,
    max: Option<i64>,
    range: &I64RangeFilter,
    label: Seq<char>,
) -> bool {
    &&& int_opt(min) == read(int_entry(label, range.min@))
    &&& int_opt(max) == read(int_entry(label, range.max@))
}

/// Whether a filter has the bounds that a range of tokens gives.
pub open spec fn has_tokens(
    min: Option<i64>,
    max: Option<i64>,
    range: &I64RangeFilter,
    label: Seq<char>,
) -> bool {
    &&& int_opt(min) == read(token_amount::optional_amount_of(label, range.min@))
    &&& int_opt(max) == read(token_amount::optional_amount_of(label, range.max@))
}

/// Whether a filter is the one that the fields make, the points in time of the
/// two bounds being known.
pub open spec fn is_filter(
    f: &RequestLogFilter,
    state: &LogFilterState,
    started: Option<Timestamp>,
    ended: Option<Timestamp>,
) -> bool {
    &&& f.model == state.model
    &&& f.target_model == state.target_model
    &&& f.upstream == state.upstream
    &&& f.reasoning_effort == state.reasoning_effort
    &&& f.endpoint == state.endpoint
    &&& (int_opt(f.status_min), int_opt(f.status_max)) == status_bounds(state)
    &&& has_ints(f.duration_ms_min, f.duration_ms_max, &state.duration_ms, "耗时"@)
    &&& has_ints(
        f.first_token_ms_min,
        f.first_token_ms_max,
        &state.first_token_ms,
        "首 token"@,
    )
    &&& has_tokens(f.input_tokens_min, f.input_tokens_max, &state.input_tokens, "输入 tokens"@)
    &&& has_tokens(f.output_tokens_min, f.output_tokens_max, &state.output_tokens, "输出 tokens"@)
    &&& has_tokens(
        f.cache_read_tokens_min,
        f.cache_read_tokens_max,
        &state.cache_read_tokens,
        "缓存输入 tokens"@,
    )
    &&& has_tokens(
        f.cache_creation_tokens_min,
        f.cache_creation_tokens_max,
        &state.cache_creation_tokens,
        "写入缓存 tokens"@,
    )
    &&& has_tokens(f.total_tokens_min, f.total_tokens_max, &state.total_tokens, "总 tokens"@)
    &&& f.estimated_cost_usd_min == read(real_entry("费用"@, state.price_usd.min@))
    &&& f.estimated_cost_usd_max == read(real_entry("费用"@, state.price_usd.max@))
    &&& f.source == state.source.only()
    &&& f.started_at == time_bound(state.started_at, started)
    &&& f.ended_at == time_bound(state.ended_at, ended)
}

/// Whether an outcome is what the fields make of given points in time.
pub open spec fn is_outcome(
    r: Result<RequestLogFilter, String>,
    state: &LogFilterState,
    started: Option<Timestamp>,
    ended: Option<Timestamp>,
) -> bool {
    match (r, or_problem(ranges_problem(state), times_problem(state, started, ended))) {
        (Ok(f), None) => is_filter(&f, state, started, ended),
        (Err(message), Some(wanted)) => message@ == wanted,
        _ => false,
    }
}

/// Whether two bounds never exclude everything because they are the wrong way
/// round.
pub open spec fn ordered(min: Option<i64>, max: Option<i64>) -> bool {
    match (min, max) {
        (Some(a), Some(b)) => a <= b,
        _ => true,
    }
}

/// No filter that comes out has bounds the wrong way round.
pub proof fn law_filter_bounds_are_ordered(
    f: RequestLogFilter,
    state: &LogFilterState,
    started: Option<Timestamp>,
    ended: Option<Timestamp>,
)
    requires
        is_outcome(Ok(f), state, started, ended),
    ensures
        ordered(f.status_min, f.status_max),
        ordered(f.duration_ms_min, f.duration_ms_max),
        ordered(f.first_token_ms_min, f.first_token_ms_max),
        ordered(f.input_tokens_min, f.input_tokens_max),
        ordered(f.output_tokens_min, f.output_tokens_max),
        ordered(f.cache_read_tokens_min, f.cache_read_tokens_max),
        ordered(f.cache_creation_tokens_min, f.cache_creation_tokens_max),
        ordered(f.total_tokens_min, f.total_tokens_max),
        match (f.estimated_cost_usd_min, f.estimated_cost_usd_max) {
            (Some(a), Some(b)) => !double::below(b, a),
            _ => true,
        },
        match (f.started_at, f.ended_at) {
            (Some(a), Some(b)) => !a.is_after(b),
            _ => true,
        },
{
}

impl LogDateTimeFilter {
    /// No bound; the present time stands in the editor.
    pub fn unset() -> (r: Self)
        ensures
            !r.enabled,
            clock::is_local_now(r.value),
    {
        LogDateTimeFilter { enabled: false, value: clock::local_now() }
    }

    /// The point in time of a bound that is set, or what is wrong with it; the
    /// point in time that the machine's time zone gives is known where there
    /// is one.
    pub fn resolve(self, label: &str, at: Option<Timestamp>) -> (r: Result<Option<Timestamp>, String>)
        ensures
            match (r, time_problem(self, label@, at)) {
                (Ok(found), None) => found == time_bound(self, at),
                (Err(message), Some(wanted)) => message@ == wanted,
                _ => false,
            },
    {
        if !self.enabled {
            return Ok(None);
        }
        match at {
            Some(at) => Ok(Some(at)),
            None => Err(text::concat(label, " 不是有效本地时间")),
        }
    }

    /// The point in time of a bound that is set, or what is wrong with it.
    pub fn to_utc(self, label: &str) -> (r: Result<Option<Timestamp>, String>)
        ensures
            !self.enabled ==> r == Ok::<Option<Timestamp>, String>(None),
            self.enabled ==> match r {
                Ok(found) => found is Some && clock::may_be_at(self.value, found),
                Err(message) => message@ == label@ + " 不是有效本地时间"@,
            },
    {
        self.resolve(label, clock::local_to_utc(self.value))
    }
}

impl LogFilterState {
    /// How many of the chosen values are set.
    pub open spec fn chosen(&self) -> nat {
        flag(self.model is Some) + flag(self.target_model is Some) + flag(self.upstream is Some)
            + flag(self.reasoning_effort is Some) + flag(self.endpoint is Some)
    }

    /// How many of the kinds and times are set.
    pub open spec fn kinds(&self) -> nat {
        flag(self.status != LogStatusFilter::All) + flag(self.source != LogSourceFilter::All)
            + flag(self.started_at.enabled) + flag(self.ended_at.enabled) + flag(
            self.status == LogStatusFilter::Custom && !self.status_custom.active(),
        )
    }

    /// How many of the ranges are set.
    pub open spec fn ranges(&self) -> nat {
        flag(self.price_usd.active()) + flag(self.duration_ms.active()) + flag(
            self.first_token_ms.active(),
        ) + flag(self.input_tokens.active()) + flag(self.output_tokens.active()) + flag(
            self.cache_read_tokens.active(),
        ) + flag(self.cache_creation_tokens.active()) + flag(self.total_tokens.active())
    }

    /// How many fields are set; a custom status without bounds counts twice.
    pub open spec fn count(&self) -> nat {
        self.chosen() + self.kinds() + self.ranges()
    }

    fn chosen_count(&self) -> (r: usize)
        ensures
            r == self.chosen(),
            r <= 5,
    {
        counted(self.model.is_some()) + counted(self.target_model.is_some()) + counted(
            self.upstream.is_some(),
        ) + counted(self.reasoning_effort.is_some()) + counted(self.endpoint.is_some())
    }

    fn kinds_count(&self) -> (r: usize)
        ensures
            r == self.kinds(),
            r <= 5,
    {
        counted(self.status != LogStatusFilter::All) + counted(self.source != LogSourceFilter::All)
            + counted(self.started_at.enabled) + counted(self.ended_at.enabled) + counted(
            self.status == LogStatusFilter::Custom && !self.status_custom.is_active(),
        )
    }

    fn ranges_count(&self) -> (r: usize)
        ensures
            r == self.ranges(),
            r <= 8,
    {
        let a: usize = counted(self.price_usd.is_active()) + counted(self.duration_ms.is_active())
            + counted(self.first_token_ms.is_active()) + counted(self.input_tokens.is_active());
        let b: usize = counted(self.output_tokens.is_active()) + counted(
            self.cache_read_tokens.is_active(),
        ) + counted(self.cache_creation_tokens.is_active()) + counted(
            self.total_tokens.is_active(),
        );
        a + b
    }

    /// How many fields are set; a custom status without bounds counts twice.
    pub fn active_count(&self) -> (r: usize)
        ensures
            r == self.count(),
    {
        self.chosen_count() + self.kinds_count() + self.ranges_count()
    }

    /// Whether any field is set.
    pub fn is_active(&self) -> (r: bool)
        ensures
            r == (self.count() > 0),
    {
        self.active_count() > 0
    }

    /// The filter that the fields make, the points in time that the machine's
    /// time zone gives the two bounds being known where there are any.
    pub fn filter_with(&self, started: Option<Timestamp>, ended: Option<Timestamp>) -> (r: Result<
        RequestLogFilter,
        String,
    >)
        ensures
            is_outcome(r, self, started, ended),
    {
        let custom: (Option<i64>, Option<i64>) = match validate_i64_range(
            "状态码",
            &self.status_custom,
        ) {
            Ok(bounds) => bounds,
            Err(message) => {
                return Err(message);
            },
        };
        let duration: (Option<i64>, Option<i64>) = match validate_i64_range(
            "耗时",
            &self.duration_ms,
        ) {
            Ok(bounds) => bounds,
            Err(message) => {
                return Err(message);
            },
        };
        let first_token: (Option<i64>, Option<i64>) = match validate_i64_range(
            "首 token",
            &self.first_token_ms,
        ) {
            Ok(bounds) => bounds,
            Err(message) => {
                return Err(message);
            },
        };
        let input: (Option<i64>, Option<i64>) = match validate_token_range(
            "输入 tokens",
            &self.input_tokens,
        ) {
            Ok(bounds) => bounds,
            Err(message) => {
                return Err(message);
            },
        };
        let output: (Option<i64>, Option<i64>) = match validate_token_range(
            "输出 tokens",
            &self.output_tokens,
        ) {
            Ok(bounds) => bounds,
            Err(message) => {
                return Err(message);
            },
        };
        let cache_read: (Option<i64>, Option<i64>) = match validate_token_range(
            "缓存输入 tokens",
            &self.cache_read_tokens,
        ) {
            Ok(bounds) => bounds,
            Err(message) => {
                return Err(message);
            },
        };
        let cache_creation: (Option<i64>, Option<i64>) = match validate_token_range(
            "写入缓存 tokens",
            &self.cache_creation_tokens,
        ) {
            Ok(bounds) => bounds,
            Err(message) => {
                return Err(message);
            },
        };
        let total: (Option<i64>, Option<i64>) = match validate_token_range(
            "总 tokens",
            &self.total_tokens,
        ) {
            Ok(bounds) => bounds,
            Err(message) => {
                return Err(message);
            },
        };
        let price: (Option<Double>, Option<Double>) = match validate_amount_range(
            "费用",
            &self.price_usd,
        ) {
            Ok(bounds) => bounds,
            Err(message) => {
                return Err(message);
            },
        };
        let started_at: Option<Timestamp> = match self.started_at.resolve("开始时间", started) {
            Ok(at) => at,
            Err(message) => {
                return Err(message);
            },
        };
        let ended_at: Option<Timestamp> = match self.ended_at.resolve("结束时间", ended) {
            Ok(at) => at,
            Err(message) => {
                return Err(message);
            },
        };
        if let Some(a) = started_at {
            if let Some(b) = ended_at {
                if a.after(b) {
                    return Err("开始时间不能晚于结束时间".to_string());
                }
            }
        }
        let status: (Option<i64>, Option<i64>) = match self.status {
            LogStatusFilter::All => (None, None),
            LogStatusFilter::Success => (Some(200), Some(399)),
            LogStatusFilter::Error => (Some(400), None),
            LogStatusFilter::ClientError => (Some(400), Some(499)),
            LogStatusFilter::ServerError => (Some(500), Some(599)),
            LogStatusFilter::Custom => custom,
        };
        let source: Option<RequestLogSource> = match self.source {
            LogSourceFilter::All => None,
            LogSourceFilter::Proxy => Some(RequestLogSource::Proxy),
            LogSourceFilter::TestBench => Some(RequestLogSource::TestBench),
        };
        Ok(
            RequestLogFilter {
                model: models::clone_opt(&self.model),
                target_model: models::clone_opt(&self.target_model),
                upstream: models::clone_opt(&self.upstream),
                reasoning_effort: models::clone_opt(&self.reasoning_effort),
                endpoint: models::clone_opt(&self.endpoint),
                status_min: status.0,
                status_max: status.1,
                duration_ms_min: duration.0,
                duration_ms_max: duration.1,
                first_token_ms_min: first_token.0,
                first_token_ms_max: first_token.1,
                input_tokens_min: input.0,
                input_tokens_max: input.1,
                output_tokens_min: output.0,
                output_tokens_max: output.1,
                cache_read_tokens_min: cache_read.0,
                cache_read_tokens_max: cache_read.1,
                cache_creation_tokens_min: cache_creation.0,
                cache_creation_tokens_max: cache_creation.1,
                total_tokens_min: total.0,
                total_tokens_max: total.1,
                estimated_cost_usd_min: price.0,
                estimated_cost_usd_max: price.1,
                source,
                started_at,
                ended_at,
            },
        )
    }

    /// The filter that the fields make, or what is wrong with them. Which moments
    /// the two bounds in time stand for depends on the machine's time zone;
    /// without them the outcome is fixed.
    pub fn to_runtime_filter(&self) -> (r: Result<RequestLogFilter, String>)
        ensures
            exists|started: Option<Timestamp>, ended: Option<Timestamp>|
                clock::may_be_at(self.started_at.value, started) && clock::may_be_at(
                    self.ended_at.value,
                    ended,
                ) && #[trigger] is_outcome(r, self, started, ended),
            !self.started_at.enabled && !self.ended_at.enabled ==> is_outcome(r, self, None, None),
    {
        let started: Option<Timestamp> = clock::local_to_utc(self.started_at.value);
        let ended: Option<Timestamp> = clock::local_to_utc(self.ended_at.value);
        let r: Result<RequestLogFilter, String> = self.filter_with(started, ended);
        assert(is_outcome(r, self, started, ended));
        r
    }

    /// An editor in which nothing is set.
    pub fn cleared() -> (r: Self)
        ensures
            r.count() == 0,
            clock::is_local_now(r.started_at.value),
            clock::is_local_now(r.ended_at.value),
            r.status_custom.is_blank(),
            r.price_usd.min@.len() == 0 && r.price_usd.max@.len() == 0,
            r.duration_ms.is_blank(),
            r.first_token_ms.is_blank(),
            r.input_tokens.is_blank(),
            r.output_tokens.is_blank(),
            r.cache_read_tokens.is_blank(),
            r.cache_creation_tokens.is_blank(),
            r.total_tokens.is_blank(),
            ranges_problem(&r) is None,
    {
        let r = LogFilterState {
            model: None,
            target_model: None,
            upstream: None,
            reasoning_effort: None,
            endpoint: None,
            status: LogStatusFilter::All,
            source: LogSourceFilter::All,
            status_custom: I64RangeFilter { min: String::new(), max: String::new() },
            price_usd: F64RangeFilter { min: String::new(), max: String::new() },
            started_at: LogDateTimeFilter::unset(),
            ended_at: LogDateTimeFilter::unset(),
            duration_ms: I64RangeFilter { min: String::new(), max: String::new() },
            first_token_ms: I64RangeFilter { min: String::new(), max: String::new() },
            input_tokens: I64RangeFilter { min: String::new(), max: String::new() },
            output_tokens: I64RangeFilter { min: String::new(), max: String::new() },
            cache_read_tokens: I64RangeFilter { min: String::new(), max: String::new() },
            cache_creation_tokens: I64RangeFilter { min: String::new(), max: String::new() },
            total_tokens: I64RangeFilter { min: String::new(), max: String::new() },
        };
        proof {
            text::lemma_trimmed_length(Seq::<char>::empty());
            assert(text::without_leading(text::trimmed(Seq::<char>::empty()), '$')
                =~= Seq::<char>::empty());
        }
        r
    }
}

/// What is said after a filter has been applied.
pub fn filter_status(state: &LogFilterState) -> (r: String)
    ensures
        r@ == if state.count() > 0 {
            "日志筛选已应用: "@ + number::nat_text(state.count()) + " 项"@
        } else {
            "日志筛选已清空"@
        },
{
    let count: usize = state.active_count();
    if count > 0 {
        text::concat3("日志筛选已应用: ", number::usize_text(count).as_str(), " 项")
    } else {
        "日志筛选已清空".to_string()
    }
}

/// The text of the button that opens the filter.
pub fn filter_button(state: &LogFilterState) -> (r: String)
    ensures
        r@ == if state.count() > 0 {
            "筛选日志 ("@ + number::nat_text(state.count()) + ")"@
        } else {
            "筛选日志"@
        },
{
    let count: usize = state.active_count();
    if count > 0 {
        text::concat3("筛选日志 (", number::usize_text(count).as_str(), ")")
    } else {
        "筛选日志".to_string()
    }
}

/// The name of a filter on the status.
pub fn status_filter_label(value: LogStatusFilter) -> (r: &'static str)
    ensures
        r@ == match value {
            LogStatusFilter::All => "全部状态"@,
            LogStatusFilter::Success => "成功"@,
            LogStatusFilter::Error => "错误"@,
            LogStatusFilter::ClientError => "4xx"@,
            LogStatusFilter::ServerError => "5xx"@,
            LogStatusFilter::Custom => "自定义"@,
        },
{
    match value {
        LogStatusFilter::All => "全部状态",
        LogStatusFilter::Success => "成功",
        LogStatusFilter::Error => "错误",
        LogStatusFilter::ClientError => "4xx",
        LogStatusFilter::ServerError => "5xx",
        LogStatusFilter::Custom => "自定义",
    }
}

/// Whether a number lies within bounds, one that is not set admitting all.
pub open spec fn admits(min: Option<i64>, max: Option<i64>, n: int) -> bool {
    (min is Some ==> min->0 <= n) && (max is Some ==> n <= max->0)
}

/// The filter on the status shows what it is called: the successes are below
/// 400 and the errors from there on, so that nothing is both; the errors of the
/// client and of the server lie within the errors and apart from each other.
pub proof fn law_status_filter_shows_what_it_says(
    f: RequestLogFilter,
    state: &LogFilterState,
    started: Option<Timestamp>,
    ended: Option<Timestamp>,
    status: int,
)
    requires
        is_outcome(Ok(f), state, started, ended),
    ensures
        ({
            let shown = admits(f.status_min, f.status_max, status);
            &&& state.status == LogStatusFilter::All ==> shown
            &&& state.status == LogStatusFilter::Success ==> (shown <==> 200 <= status < 400)
            &&& state.status == LogStatusFilter::Error ==> (shown <==> status >= 400)
            &&& state.status == LogStatusFilter::ClientError ==> (shown <==> 400 <= status < 500)
            &&& state.status == LogStatusFilter::ServerError ==> (shown <==> 500 <= status < 600)
            &&& state.status == LogStatusFilter::Custom && text::trimmed(
                state.status_custom.min@,
            ).len() == 0 && text::trimmed(state.status_custom.max@).len() == 0 ==> shown
        }),
{
}

/// The same status never shows under the successes and under the errors, and
/// one of the client or of the server always shows under the errors too.
pub proof fn law_successes_are_no_errors(
    success: RequestLogFilter,
    error: RequestLogFilter,
    part: RequestLogFilter,
    a: &LogFilterState,
    b: &LogFilterState,
    c: &LogFilterState,
    status: int,
)
    requires
        is_outcome(Ok(success), a, None, None),
        is_outcome(Ok(error), b, None, None),
        is_outcome(Ok(part), c, None, None),
        a.status == LogStatusFilter::Success,
        b.status == LogStatusFilter::Error,
        c.status == LogStatusFilter::ClientError || c.status == LogStatusFilter::ServerError,
    ensures
        !(admits(success.status_min, success.status_max, status) && admits(
            error.status_min,
            error.status_max,
            status,
        )),
        200 <= status ==> admits(success.status_min, success.status_max, status) || admits(
            error.status_min,
            error.status_max,
            status,
        ),
        admits(part.status_min, part.status_max, status) ==> admits(
            error.status_min,
            error.status_max,
            status,
        ),
{
}

/// A bound that was typed is the bound that the log is read with, each in its
/// own place and on its own side; a blank one bounds nothing.
pub proof fn law_typed_bounds_bound_their_own_field(
    f: RequestLogFilter,
    state: &LogFilterState,
    started: Option<Timestamp>,
    ended: Option<Timestamp>,
    n: int,
)
    requires
        is_outcome(Ok(f), state, started, ended),
        i64::MIN <= n <= i64::MAX,
    ensures
        ({
            let writes = |field: String|
                text::trimmed(field@).len() > 0 && number::int_of_text(text::trimmed(field@))
                    == Some(n);
            let blank = |field: String| text::trimmed(field@).len() == 0;
            let is = |bound: Option<i64>| bound is Some && bound->0 == n;
            &&& writes(state.duration_ms.min) ==> is(f.duration_ms_min)
            &&& writes(state.duration_ms.max) ==> is(f.duration_ms_max)
            &&& blank(state.duration_ms.min) ==> f.duration_ms_min is None
            &&& blank(state.duration_ms.max) ==> f.duration_ms_max is None
            &&& writes(state.first_token_ms.min) ==> is(f.first_token_ms_min)
            &&& writes(state.first_token_ms.max) ==> is(f.first_token_ms_max)
            &&& blank(state.first_token_ms.min) ==> f.first_token_ms_min is None
            &&& blank(state.first_token_ms.max) ==> f.first_token_ms_max is None
            &&& state.status == LogStatusFilter::Custom && writes(state.status_custom.min) ==> is(
                f.status_min,
            )
            &&& state.status == LogStatusFilter::Custom && writes(state.status_custom.max) ==> is(
                f.status_max,
            )
            &&& blank(state.input_tokens.min) ==> f.input_tokens_min is None
            &&& blank(state.input_tokens.max) ==> f.input_tokens_max is None
            &&& blank(state.output_tokens.min) ==> f.output_tokens_min is None
            &&& blank(state.output_tokens.max) ==> f.output_tokens_max is None
            &&& blank(state.cache_read_tokens.min) ==> f.cache_read_tokens_min is None
            &&& blank(state.cache_read_tokens.max) ==> f.cache_read_tokens_max is None
            &&& blank(state.cache_creation_tokens.min) ==> f.cache_creation_tokens_min is None
            &&& blank(state.cache_creation_tokens.max) ==> f.cache_creation_tokens_max is None
            &&& blank(state.total_tokens.min) ==> f.total_tokens_min is None
            &&& blank(state.total_tokens.max) ==> f.total_tokens_max is None
        }),
{
}

/// An amount of tokens that was typed is the bound of its own field.
pub proof fn law_typed_tokens_bound_their_own_field(
    f: RequestLogFilter,
    state: &LogFilterState,
    started: Option<Timestamp>,
    ended: Option<Timestamp>,
    n: int,
)
    requires
        is_outcome(Ok(f), state, started, ended),
        i64::MIN <= n <= i64::MAX,
    ensures
        ({
            let writes = |field: String|
                text::trimmed(field@).len() > 0 && token_amount::amount_of(text::trimmed(field@))
                    == Ok::<int, Seq<char>>(n);
            let is = |bound: Option<i64>| bound is Some && bound->0 == n;
            &&& writes(state.input_tokens.min) ==> is(f.input_tokens_min)
            &&& writes(state.input_tokens.max) ==> is(f.input_tokens_max)
            &&& writes(state.output_tokens.min) ==> is(f.output_tokens_min)
            &&& writes(state.output_tokens.max) ==> is(f.output_tokens_max)
            &&& writes(state.cache_read_tokens.min) ==> is(f.cache_read_tokens_min)
            &&& writes(state.cache_read_tokens.max) ==> is(f.cache_read_tokens_max)
            &&& writes(state.cache_creation_tokens.min) ==> is(f.cache_creation_tokens_min)
            &&& writes(state.cache_creation_tokens.max) ==> is(f.cache_creation_tokens_max)
            &&& writes(state.total_tokens.min) ==> is(f.total_tokens_min)
            &&& writes(state.total_tokens.max) ==> is(f.total_tokens_max)
        }),
{
}

/// What was chosen is what the log is read with, the source and the times
/// included; a time that is not set bounds nothing.
pub proof fn law_choices_are_filtered_by(
    f: RequestLogFilter,
    state: &LogFilterState,
    started: Option<Timestamp>,
    ended: Option<Timestamp>,
)
    requires
        is_outcome(Ok(f), state, started, ended),
    ensures
        f.model == state.model && f.target_model == state.target_model && f.upstream
            == state.upstream,
        f.reasoning_effort == state.reasoning_effort && f.endpoint == state.endpoint,
        state.source == LogSourceFilter::All ==> f.source is None,
        state.source == LogSourceFilter::Proxy ==> f.source == Some(RequestLogSource::Proxy),
        state.source == LogSourceFilter::TestBench ==> f.source == Some(
            RequestLogSource::TestBench,
        ),
        state.started_at.enabled ==> started is Some && f.started_at == started,
        !state.started_at.enabled ==> f.started_at is None,
        state.ended_at.enabled ==> ended is Some && f.ended_at == ended,
        !state.ended_at.enabled ==> f.ended_at is None,
        f.estimated_cost_usd_min is Some ==> real_entry("费用"@, state.price_usd.min@) == Ok::<
            Option<Double>,
            Seq<char>,
        >(f.estimated_cost_usd_min),
        f.estimated_cost_usd_max is Some ==> real_entry("费用"@, state.price_usd.max@) == Ok::<
            Option<Double>,
            Seq<char>,
        >(f.estimated_cost_usd_max),
        text::trimmed(state.price_usd.min@).len() > 0 && double::of_text(
            text::without_leading(text::trimmed(state.price_usd.min@), '$'),
        ) is Some ==> f.estimated_cost_usd_min is Some || text::without_leading(
            text::trimmed(state.price_usd.min@),
            '$',
        ).len() == 0,
        text::trimmed(state.price_usd.max@).len() > 0 && double::of_text(
            text::without_leading(text::trimmed(state.price_usd.max@), '$'),
        ) is Some ==> f.estimated_cost_usd_max is Some || text::without_leading(
            text::trimmed(state.price_usd.max@),
            '$',
        ).len() == 0,
{
}

/// A whole number that was typed is read, a blank field is no bound, and
/// anything else is refused in the name of its field; the space around it says
/// nothing.
pub proof fn law_whole_numbers_are_read(label: Seq<char>, value: Seq<char>, n: int)
    ensures
        text::trimmed(value).len() == 0 ==> int_entry(label, value) == Ok::<
            Option<int>,
            Seq<char>,
        >(None),
        int_entry(label, text::trimmed(value)) == int_entry(label, value),
        text::trimmed(value).len() > 0 && number::int_of_text(text::trimmed(value)) == Some(n)
            && i64::MIN <= n <= i64::MAX ==> int_entry(label, value) == Ok::<
            Option<int>,
            Seq<char>,
        >(Some(n)),
        int_entry(label, value) is Err ==> int_entry(label, value)->Err_0 == label
            + " 需要填写整数"@,
        text::trimmed(value).len() > 0 && number::int_of_text(text::trimmed(value)) is None
            ==> int_entry(label, value) is Err,
{
    text::law_trim_is_settled(value);
}

/// A range is refused exactly where a bound cannot be read or the smaller one
/// is above the larger.
pub proof fn law_ranges_the_wrong_way_round_are_refused(label: Seq<char>, a: int, b: int)
    ensures
        int_range_problem(label, Ok(Some(a)), Ok(Some(b))) is Some <==> a > b,
        int_range_problem(label, Ok(None), Ok(Some(b))) is None,
        int_range_problem(label, Ok(Some(a)), Ok(None)) is None,
        a > b ==> int_range_problem(label, Ok(Some(a)), Ok(Some(b))) == Some(
            label + " 最小值不能大于最大值"@,
        ),
{
}

/// An amount of money is read with or without its sign, and no other value than
/// a finite one is taken.
pub proof fn law_amounts_are_read(label: Seq<char>, value: Seq<char>)
    ensures
        ({
            let r = real_entry(label, value);
            let bare = text::without_leading(text::trimmed(value), '$');
            &&& bare.len() == 0 <==> r == Ok::<Option<Double>, Seq<char>>(None)
            &&& (r matches Ok(Some(x)) ==> x is Finite && double::of_text(bare) == Some(x))
            &&& bare.len() > 0 && double::of_text(bare) is Some && double::of_text(bare)->0
                is Finite ==> r == Ok::<Option<Double>, Seq<char>>(double::of_text(bare))
            &&& bare.len() > 0 && double::of_text(bare) is None ==> r is Err
        }),
{
}

} // verus!
