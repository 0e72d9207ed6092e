//! The request log as it is shown: pages, choices for the filter, and the text
//! of each entry.

use crate::clock;
use crate::clock::{CivilTime, Timestamp};
use crate::double;
use crate::float64::Double;
use crate::models::{RequestLog, Upstream};
use crate::name_list;
use crate::number;
use crate::text;
use crate::tokens;
use vstd::prelude::*;

verus! {

/// One of the places in the row of pages.
#[derive(Debug, Clone, Copy, PartialEq, Eq, Structural)]
pub enum LogPageItem {
    Page(usize),
    Ellipsis,
    Empty,
}

/// The places in the row of pages.
pub open spec fn page_items(current: nat, total: nat) -> Seq<LogPageItem> {
    if total <= 7 {
        Seq::new(
            7,
            |i: int|
                if i < total {
                    LogPageItem::Page(i as usize)
                } else {
                    LogPageItem::Empty
                },
        )
    } else if current <= 2 {
        seq![
            LogPageItem::Page(0),
            LogPageItem::Page(1),
            LogPageItem::Page(2),
            LogPageItem::Page(3),
            LogPageItem::Page(4),
            LogPageItem::Ellipsis,
            LogPageItem::Page((total - 1) as usize),
        ]
    } else if current + 3 >= total {
        seq![
            LogPageItem::Page(0),
            LogPageItem::Ellipsis,
            LogPageItem::Page((total - 5) as usize),
            LogPageItem::Page((total - 4) as usize),
            LogPageItem::Page((total - 3) as usize),
            LogPageItem::Page((total - 2) as usize),
            LogPageItem::Page((total - 1) as usize),
        ]
    } else {
        seq![
            LogPageItem::Page(0),
            LogPageItem::Ellipsis,
            LogPageItem::Page((current - 1) as usize),
            LogPageItem::Page(current as usize),
            LogPageItem::Page((current + 1) as usize),
            LogPageItem::Ellipsis,
            LogPageItem::Page((total - 1) as usize),
        ]
    }
}

/// The places in the row of pages.
pub fn log_page_items(current_page: usize, total_pages: usize) -> (r: Vec<LogPageItem>)
    ensures
        r@ == page_items(current_page as nat, total_pages as nat),
{
    if total_pages <= 7 {
        let mut items: Vec<LogPageItem> = Vec::new();
        let mut i: usize = 0;
        while i < 7
            invariant
                i <= 7,
                total_pages <= 7,
                items@ == page_items(current_page as nat, total_pages as nat).take(i as int),
            decreases 7 - i,
        {
            items.push(
                if i < total_pages {
                    LogPageItem::Page(i)
                } else {
                    LogPageItem::Empty
                },
            );
            i = i + 1;
            assert(items@ =~= page_items(current_page as nat, total_pages as nat).take(i as int));
        }
        assert(items@ =~= page_items(current_page as nat, total_pages as nat));
        return items;
    }
    if current_page <= 2 {
        return vec![
            LogPageItem::Page(0),
            LogPageItem::Page(1),
            LogPageItem::Page(2),
            LogPageItem::Page(3),
            LogPageItem::Page(4),
            LogPageItem::Ellipsis,
            LogPageItem::Page(total_pages - 1),
        ];
    }
    if current_page >= total_pages - 3 {
        return vec![
            LogPageItem::Page(0),
            LogPageItem::Ellipsis,
            LogPageItem::Page(total_pages - 5),
            LogPageItem::Page(total_pages - 4),
            LogPageItem::Page(total_pages - 3),
            LogPageItem::Page(total_pages - 2),
            LogPageItem::Page(total_pages - 1),
        ];
    }
    vec![
        LogPageItem::Page(0),
        LogPageItem::Ellipsis,
        LogPageItem::Page(current_page - 1),
        LogPageItem::Page(current_page),
        LogPageItem::Page(current_page + 1),
        LogPageItem::Ellipsis,
        LogPageItem::Page(total_pages - 1),
    ]
}

/// The row of pages always has seven places.
pub proof fn law_seven_places(current: nat, total: nat)
    ensures
        page_items(current, total).len() == 7,
{
}

/// The row offers the present page, the first and the last, and no page that
/// is not there.
pub proof fn law_pages_in_reach(current: nat, total: nat)
    requires
        current < total <= usize::MAX,
    ensures
        page_items(current, total).contains(LogPageItem::Page(current as usize)),
        page_items(current, total).contains(LogPageItem::Page(0)),
        page_items(current, total).contains(LogPageItem::Page((total - 1) as usize)),
        forall|i: int|
            0 <= i < 7 ==> match #[trigger] page_items(current, total)[i] {
                LogPageItem::Page(page) => page < total,
                _ => true,
            },
{
    let items = page_items(current, total);
    if total <= 7 {
        assert(items[current as int] == LogPageItem::Page(current as usize));
        assert(items[0] == LogPageItem::Page(0));
        assert(items[total - 1] == LogPageItem::Page((total - 1) as usize));
    } else {
        assert(items[0] == LogPageItem::Page(0));
        assert(items[6] == LogPageItem::Page((total - 1) as usize));
        if current <= 2 {
            assert(items[current as int] == LogPageItem::Page(current as usize));
        } else if current + 3 >= total {
            assert(items[current - total + 7] == LogPageItem::Page(current as usize));
        } else {
            assert(items[3] == LogPageItem::Page(current as usize));
        }
    }
}

/// How many pages there are.
pub open spec fn page_count(total: int, page_size: nat) -> int {
    if total <= 0 || page_size == 0 {
        0
    } else {
        (total + page_size - 1) / page_size as int
    }
}

/// How many pages there are.
pub fn log_total_pages(total_count: i64, page_size: usize) -> (r: usize)
    requires
        total_count <= usize::MAX,
    ensures
        r == page_count(total_count as int, page_size as nat),
{
    if total_count <= 0 || page_size == 0 {
        return 0;
    }
    let total: usize = total_count as usize;
    let whole: usize = total / page_size;
    let rest: usize = total % page_size;
    proof {
        let n = total as int;
        let d = page_size as int;
        vstd::arithmetic::div_mod::lemma_fundamental_div_mod(n, d);
        let q = n / d;
        let m = n % d;
        if m == 0 {
            vstd::arithmetic::div_mod::lemma_fundamental_div_mod_converse(n + d - 1, d, q, d - 1);
        } else {
            assert(n + d - 1 == d * (q + 1) + (m - 1)) by (nonlinear_arith)
                requires
                    n == d * q + m,
            ;
            vstd::arithmetic::div_mod::lemma_fundamental_div_mod_converse(
                n + d - 1,
                d,
                q + 1,
                m - 1,
            );
            assert(q < n) by (nonlinear_arith)
                requires
                    n == d * q + m,
                    m >= 1,
                    d >= 1,
                    q >= 0,
            ;
        }
    }
    if rest == 0 {
        whole
    } else {
        whole + 1
    }
}

/// The smaller of two numbers.
pub open spec fn smaller(a: int, b: int) -> int {
    if a <= b {
        a
    } else {
        b
    }
}

/// The first and the last entry that a page shows, counted from one.
pub open spec fn result_range(page: nat, page_size: nat, total: int) -> (int, int) {
    if total <= 0 || page_size == 0 {
        (0, 0)
    } else {
        (smaller((page * page_size) as int + 1, total), smaller(((page + 1) * page_size) as int, total))
    }
}

/// The first and the last entry that a page shows, counted from one.
pub fn log_result_range(page: usize, page_size: usize, total_count: i64) -> (r: (i64, i64))
    requires
        total_count > 0 ==> (page + 1) * page_size <= i64::MAX,
    ensures
        (r.0 as int, r.1 as int) == result_range(
            page as nat,
            page_size as nat,
            total_count as int,
        ),
{
    if total_count <= 0 || page_size == 0 {
        return (0, 0);
    }
    proof {
        assert(page * page_size + 1 <= (page + 1) * page_size) by (nonlinear_arith)
            requires
                page_size >= 1,
        ;
        assert(page * page_size >= 0) by (nonlinear_arith);
    }
    let start: i64 = (page as u128 * page_size as u128) as i64 + 1;
    let end: i64 = ((page as u128 + 1) * page_size as u128) as i64;
    let first: i64 = if start <= total_count {
        start
    } else {
        total_count
    };
    let last: i64 = if end <= total_count {
        end
    } else {
        total_count
    };
    (first, last)
}

/// The line that says which entries are shown.
pub fn result_line(page: usize, page_size: usize, total_count: i64) -> (r: String)
    requires
        total_count > 0 ==> (page + 1) * page_size <= i64::MAX,
    ensures
        r@ == ({
            let range = result_range(page as nat, page_size as nat, total_count as int);
            "显示 "@ + number::int_text(range.0) + " 至 "@ + number::int_text(range.1) + " 共 "@
                + number::int_text(total_count as int) + " 条结果"@
        }),
{
    let (first, last): (i64, i64) = log_result_range(page, page_size, total_count);
    let front: String = text::concat4(
        "显示 ",
        number::i64_text(first).as_str(),
        " 至 ",
        number::i64_text(last).as_str(),
    );
    text::concat4(
        front.as_str(),
        " 共 ",
        number::i64_text(total_count).as_str(),
        " 条结果",
    )
}

/// The text that an optional one holds, where it is not empty.
pub open spec fn is_value(value: Option<String>, n: Seq<char>) -> bool {
    value matches Some(v) && v@ == n && n.len() > 0
}

/// The models that occur in the log, in order.
pub fn log_model_options(logs: &Vec<RequestLog>) -> (r: Vec<String>)
    ensures
        name_list::in_order(r@),
        forall|n: Seq<char>|
            #![trigger name_list::lists(r@, n)]
            name_list::lists(r@, n) <==> exists|i: int|
                0 <= i < logs@.len() && is_value((#[trigger] logs@[i]).model, n),
{
    let mut out: Vec<String> = Vec::new();
    let mut i: usize = 0;
    while i < logs.len()
        invariant
            i <= logs@.len(),
            name_list::in_order(out@),
            forall|n: Seq<char>|
                #![trigger name_list::lists(out@, n)]
                name_list::lists(out@, n) <==> exists|j: int|
                    0 <= j < i && is_value((#[trigger] logs@[j]).model, n),
        decreases logs@.len() - i,
    {
        let ghost before = out@;
        if let Some(model) = &logs[i].model {
            name_list::insert_non_empty(&mut out, model.as_str());
        }
        proof {
            assert forall|n: Seq<char>|
                #![trigger name_list::lists(out@, n)]
                name_list::lists(out@, n) <==> exists|j: int|
                    0 <= j < i + 1 && is_value((#[trigger] logs@[j]).model, n) by {
                assert(name_list::lists(out@, n) <==> name_list::lists(before, n) || is_value(
                    logs@[i as int].model,
                    n,
                ));
            }
        }
        i = i + 1;
    }
    out
}

/// The reasoning efforts that occur in the log, in order.
pub fn log_reasoning_effort_options(logs: &Vec<RequestLog>) -> (r: Vec<String>)
    ensures
        name_list::in_order(r@),
        forall|n: Seq<char>|
            #![trigger name_list::lists(r@, n)]
            name_list::lists(r@, n) <==> exists|i: int|
                0 <= i < logs@.len() && is_value((#[trigger] logs@[i]).reasoning_effort, n),
{
    let mut out: Vec<String> = Vec::new();
    let mut i: usize = 0;
    while i < logs.len()
        invariant
            i <= logs@.len(),
            name_list::in_order(out@),
            forall|n: Seq<char>|
                #![trigger name_list::lists(out@, n)]
                name_list::lists(out@, n) <==> exists|j: int|
                    0 <= j < i && is_value((#[trigger] logs@[j]).reasoning_effort, n),
        decreases logs@.len() - i,
    {
        let ghost before = out@;
        if let Some(effort) = &logs[i].reasoning_effort {
            name_list::insert_non_empty(&mut out, effort.as_str());
        }
        proof {
            assert forall|n: Seq<char>|
                #![trigger name_list::lists(out@, n)]
                name_list::lists(out@, n) <==> exists|j: int|
                    0 <= j < i + 1 && is_value((#[trigger] logs@[j]).reasoning_effort, n) by {
                assert(name_list::lists(out@, n) <==> name_list::lists(before, n) || is_value(
                    logs@[i as int].reasoning_effort,
                    n,
                ));
            }
        }
        i = i + 1;
    }
    out
}

/// The endpoints that occur in the log, in order.
pub fn log_endpoint_options(logs: &Vec<RequestLog>) -> (r: Vec<String>)
    ensures
        name_list::in_order(r@),
        forall|n: Seq<char>|
            #![trigger name_list::lists(r@, n)]
            name_list::lists(r@, n) <==> n.len() > 0 && exists|i: int|
                0 <= i < logs@.len() && (#[trigger] logs@[i]).endpoint@ == n,
{
    let mut out: Vec<String> = Vec::new();
    let mut i: usize = 0;
    while i < logs.len()
        invariant
            i <= logs@.len(),
            name_list::in_order(out@),
            forall|n: Seq<char>|
                #![trigger name_list::lists(out@, n)]
                name_list::lists(out@, n) <==> n.len() > 0 && exists|j: int|
                    0 <= j < i && (#[trigger] logs@[j]).endpoint@ == n,
        decreases logs@.len() - i,
    {
        let ghost before = out@;
        name_list::insert_non_empty(&mut out, logs[i].endpoint.as_str());
        proof {
            assert forall|n: Seq<char>|
                #![trigger name_list::lists(out@, n)]
                name_list::lists(out@, n) <==> n.len() > 0 && exists|j: int|
                    0 <= j < i + 1 && (#[trigger] logs@[j]).endpoint@ == n by {
                assert(name_list::lists(out@, n) <==> name_list::lists(before, n) || (
                logs@[i as int].endpoint@ == n && n.len() > 0));
            }
        }
        i = i + 1;
    }
    out
}

/// The upstreams that occur in the log or are there at present, in order.
pub fn log_upstream_options(logs: &Vec<RequestLog>, upstreams: &Vec<Upstream>) -> (r: Vec<String>)
    ensures
        name_list::in_order(r@),
        forall|n: Seq<char>|
            #![trigger name_list::lists(r@, n)]
            name_list::lists(r@, n) <==> (n.len() > 0 && exists|i: int|
                0 <= i < upstreams@.len() && (#[trigger] upstreams@[i]).name@ == n) || exists|
                i: int,
            |
                0 <= i < logs@.len() && is_value((#[trigger] logs@[i]).upstream_name, n),
{
    let mut out: Vec<String> = Vec::new();
    let mut i: usize = 0;
    while i < upstreams.len()
        invariant
            i <= upstreams@.len(),
            name_list::in_order(out@),
            forall|n: Seq<char>|
                #![trigger name_list::lists(out@, n)]
                name_list::lists(out@, n) <==> n.len() > 0 && exists|j: int|
                    0 <= j < i && (#[trigger] upstreams@[j]).name@ == n,
        decreases upstreams@.len() - i,
    {
        let ghost before = out@;
        name_list::insert_non_empty(&mut out, upstreams[i].name.as_str());
        proof {
            assert forall|n: Seq<char>|
                #![trigger name_list::lists(out@, n)]
                name_list::lists(out@, n) <==> n.len() > 0 && exists|j: int|
                    0 <= j < i + 1 && (#[trigger] upstreams@[j]).name@ == n by {
                assert(name_list::lists(out@, n) <==> name_list::lists(before, n) || (
                upstreams@[i as int].name@ == n && n.len() > 0));
            }
        }
        i = i + 1;
    }
    let ghost present = out@;
    let mut i: usize = 0;
    while i < logs.len()
        invariant
            i <= logs@.len(),
            name_list::in_order(out@),
            forall|n: Seq<char>|
                #![trigger name_list::lists(out@, n)]
                name_list::lists(out@, n) <==> name_list::lists(present, n) || exists|j: int|
                    0 <= j < i && is_value((#[trigger] logs@[j]).upstream_name, n),
        decreases logs@.len() - i,
    {
        let ghost before = out@;
        if let Some(name) = &logs[i].upstream_name {
            name_list::insert_non_empty(&mut out, name.as_str());
        }
        proof {
            assert forall|n: Seq<char>|
                #![trigger name_list::lists(out@, n)]
                name_list::lists(out@, n) <==> name_list::lists(present, n) || exists|j: int|
                    0 <= j < i + 1 && is_value((#[trigger] logs@[j]).upstream_name, n) by {
                assert(name_list::lists(out@, n) <==> name_list::lists(before, n) || is_value(
                    logs@[i as int].upstream_name,
                    n,
                ));
            }
        }
        i = i + 1;
    }
    out
}

/// How much of the log is kept when it is cleaned up.
#[derive(Debug, Clone, Copy, PartialEq, Eq, Structural)]
pub enum LogRetentionChoice {
    OneDay,
    OneWeek,
    OneMonth,
    OneYear,
    Count,
    Failed,
}

/// What is kept of the log.
#[derive(Debug, Clone, Copy, PartialEq, Eq, Structural)]
pub enum RequestLogRetention {
    /// What is no older than this.
    Since(Timestamp),
    /// So many of the latest entries.
    Newest(i64),
    /// All but the failed requests.
    Failed,
}

/// The days that a choice keeps.
pub open spec fn kept_days(choice: LogRetentionChoice) -> Option<int> {
    match choice {
        LogRetentionChoice::OneDay => Some(1),
        LogRetentionChoice::OneWeek => Some(7),
        LogRetentionChoice::OneMonth => Some(30),
        LogRetentionChoice::OneYear => Some(365),
        _ => None,
    }
}

/// What a choice keeps of the log.
pub open spec fn retention_of(choice: LogRetentionChoice, count: i64, now: Timestamp) -> RequestLogRetention {
    match kept_days(choice) {
        Some(days) => RequestLogRetention::Since(
            Timestamp { seconds: (now.seconds - days * 86_400) as i64, nanos: now.nanos },
        ),
        None => if choice == LogRetentionChoice::Count {
            RequestLogRetention::Newest(count)
        } else {
            RequestLogRetention::Failed
        },
    }
}

/// What a choice keeps of the log at some moment.
pub fn retention_at(choice: LogRetentionChoice, count: i64, now: Timestamp) -> (r: RequestLogRetention)
    requires
        kept_days(choice) matches Some(days) ==> !clock::beyond_calendar(now.seconds) && (
        now.seconds >= 0 || clock::in_calendar((now.seconds - days * 86_400) as i64)),
    ensures
        r == retention_of(choice, count, now),
{
    let days: i64 = match choice {
        LogRetentionChoice::OneDay => 1,
        LogRetentionChoice::OneWeek => 7,
        LogRetentionChoice::OneMonth => 30,
        LogRetentionChoice::OneYear => 365,
        LogRetentionChoice::Count => {
            return RequestLogRetention::Newest(count);
        },
        LogRetentionChoice::Failed => {
            return RequestLogRetention::Failed;
        },
    };
    RequestLogRetention::Since(
        Timestamp { seconds: now.seconds - days * 86_400, nanos: now.nanos },
    )
}

/// What is kept of the log where it is cleaned up now.
pub fn retention(choice: LogRetentionChoice, count: i64) -> (r: RequestLogRetention)
    ensures
        exists|now: Timestamp|
            clock::is_now(now) && r == #[trigger] retention_of(choice, count, now),
        kept_days(choice) is None ==> r == retention_of(choice, count, (Timestamp { seconds: 0, nanos: 0 })),
{
    let now: Timestamp = clock::utc_now();
    let kept: RequestLogRetention = retention_at(choice, count, now);
    proof {
        assert(kept == retention_of(choice, count, now));
    }
    kept
}

/// The name of a choice.
pub fn log_retention_label(choice: LogRetentionChoice) -> (r: &'static str)
    ensures
        r@ == match choice {
            LogRetentionChoice::OneDay => "保留一天"@,
            LogRetentionChoice::OneWeek => "保留一周"@,
            LogRetentionChoice::OneMonth => "保留一个月"@,
            LogRetentionChoice::OneYear => "保留一年"@,
            LogRetentionChoice::Count => "保留指定条数"@,
            LogRetentionChoice::Failed => "只清理失败请求"@,
        },
{
    match choice {
        LogRetentionChoice::OneDay => "保留一天",
        LogRetentionChoice::OneWeek => "保留一周",
        LogRetentionChoice::OneMonth => "保留一个月",
        LogRetentionChoice::OneYear => "保留一年",
        LogRetentionChoice::Count => "保留指定条数",
        LogRetentionChoice::Failed => "只清理失败请求",
    }
}

/// The text that an optional one holds, or a dash.
pub open spec fn or_dash(value: Option<String>) -> Seq<char> {
    match value {
        Some(v) => v@,
        None => "-"@,
    }
}

/// The text that an optional one holds, or a dash.
pub fn text_or_dash(value: &Option<String>) -> (r: String)
    ensures
        r@ == or_dash(*value),
{
    match value {
        Some(v) => v.clone(),
        None => "-".to_string(),
    }
}

/// The model of an entry, with a mark where the request failed.
pub fn model_text(log: &RequestLog) -> (r: String)
    ensures
        r@ == if log.status >= 400 {
            or_dash(log.model) + " / 错误"@
        } else {
            or_dash(log.model)
        },
{
    let model: String = text_or_dash(&log.model);
    if log.status >= 400 {
        text::concat(model.as_str(), " / 错误")
    } else {
        model
    }
}

/// The upstream of an entry.
pub fn upstream_text(log: &RequestLog) -> (r: String)
    ensures
        r@ == or_dash(log.upstream_name),
{
    text_or_dash(&log.upstream_name)
}

/// The details of an entry, one to a line.
pub open spec fn hover_text(log: &RequestLog) -> Seq<char> {
    let front = match log.upstream_name {
        Some(name) => "上游: "@ + name@ + "\n"@,
        None => Seq::empty(),
    };
    let middle = front + "endpoint: "@ + log.endpoint@ + "\nstatus: "@ + number::int_text(
        log.status as int,
    );
    match log.error {
        Some(error) => if error@.len() > 0 {
            middle + "\nerror: "@ + error@
        } else {
            middle
        },
        None => middle,
    }
}

/// The details of an entry, one to a line.
pub fn log_hover_text(log: &RequestLog) -> (r: String)
    ensures
        r@ == hover_text(log),
{
    let front: String = match &log.upstream_name {
        Some(name) => text::concat3("上游: ", name.as_str(), "\n"),
        None => String::new(),
    };
    let status: String = number::i64_text(log.status);
    let endpoint: String = text::concat3(front.as_str(), "endpoint: ", log.endpoint.as_str());
    let middle: String = text::concat3(endpoint.as_str(), "\nstatus: ", status.as_str());
    assert(middle@ =~= front@ + "endpoint: "@ + log.endpoint@ + "\nstatus: "@ + status@);
    match &log.error {
        Some(error) => {
            if !text::is_empty(error.as_str()) {
                text::concat3(middle.as_str(), "\nerror: ", error.as_str())
            } else {
                middle
            }
        },
        None => middle,
    }
}

/// A duration in milliseconds, in seconds from one second on.
pub open spec fn duration_text(value: i64) -> Seq<char> {
    if value < 1000 {
        number::int_text(value as int) + "ms"@
    } else {
        double::fixed(double::divided_by(double::of_int(value as int), 1000), 2) + "s"@
    }
}

/// A duration in milliseconds, in seconds from one second on.
pub fn format_duration(value: i64) -> (r: String)
    ensures
        r@ == duration_text(value),
{
    if value < 1000 {
        text::concat(number::i64_text(value).as_str(), "ms")
    } else {
        text::concat(Double::from_i64(value).over(1000).to_fixed(2).as_str(), "s")
    }
}

/// A duration where there is one, a dash otherwise.
pub fn format_optional_duration(value: Option<i64>) -> (r: String)
    ensures
        r@ == match value {
            Some(value) => duration_text(value),
            None => "-"@,
        },
{
    match value {
        Some(value) => format_duration(value),
        None => "-".to_string(),
    }
}

/// What an entry is estimated to have cost.
pub fn log_cost_text(cost: Option<Double>) -> (r: String)
    requires
        cost matches Some(cost) ==> cost.wf(),
    ensures
        r@ == match cost {
            Some(cost) => tokens::amount_text(cost, "$"@),
            None => "-"@,
        },
{
    match cost {
        Some(cost) => tokens::format_usd(cost),
        None => "-".to_string(),
    }
}

/// A date and a time of day.
pub open spec fn civil_text(t: CivilTime) -> Seq<char> {
    clock::year_text(t.year as int) + "/"@ + number::padded_text(t.month as nat, 2) + "/"@
        + number::padded_text(t.day as nat, 2) + " "@ + number::padded_text(t.hour as nat, 2)
        + ":"@ + number::padded_text(t.minute as nat, 2) + ":"@ + number::padded_text(
        t.second as nat,
        2,
    )
}

/// A date and a time of day.
pub fn format_civil(t: CivilTime) -> (r: String)
    ensures
        r@ == civil_text(t),
{
    let month: String = number::padded(t.month as u64, 2);
    let day: String = number::padded(t.day as u64, 2);
    let hour: String = number::padded(t.hour as u64, 2);
    let minute: String = number::padded(t.minute as u64, 2);
    let second: String = number::padded(t.second as u64, 2);
    let year: String = clock::format_year(t.year);
    let date: String = text::concat3(
        text::concat3(year.as_str(), "/", month.as_str()).as_str(),
        "/",
        day.as_str(),
    );
    let clock: String = text::concat3(
        text::concat3(date.as_str(), " ", hour.as_str()).as_str(),
        ":",
        minute.as_str(),
    );
    text::concat3(clock.as_str(), ":", second.as_str())
}

/// The time of an entry, as the machine's time zone shows it: a dash without
/// one, otherwise the text of a date and a time of day.
pub fn format_log_time(log: &RequestLog) -> (r: String)
    requires
        log.ts matches Some(ts) ==> clock::in_calendar(ts.seconds) && ts.nanos < 1_000_000_000,
    ensures
        match log.ts {
            Some(ts) => exists|t: CivilTime|
                t.wf() && clock::shown_at(t, ts.seconds) && r@ == #[trigger] civil_text(t),
            None => r@ == "-"@,
        },
{
    match log.ts {
        Some(ts) => {
            let t: CivilTime = clock::utc_to_local(ts);
            format_civil(t)
        },
        None => "-".to_string(),
    }
}

/// The pages hold the entries: so many that all find room, and none of them is
/// without an entry.
pub proof fn law_pages_hold_the_entries(total: int, page_size: nat)
    requires
        total > 0,
        page_size > 0,
    ensures
        page_count(total, page_size) * page_size >= total,
        (page_count(total, page_size) - 1) * page_size < total,
        page_count(total, page_size) >= 1,
{
    let n = page_count(total, page_size);
    let size = page_size as int;
    vstd::arithmetic::div_mod::lemma_fundamental_div_mod(total + size - 1, size);
    vstd::arithmetic::div_mod::lemma_mod_bound(total + size - 1, size);
    assert(size * n == n * size) by (nonlinear_arith);
    assert((n - 1) * size == n * size - size) by (nonlinear_arith);
    assert(n >= 1) by (nonlinear_arith)
        requires
            n * size > 0,
            size > 0,
    ;
}

/// Without entries there is no page, and none is shown.
pub proof fn law_no_entries_no_pages(page: nat, page_size: nat, total: int)
    ensures
        total <= 0 ==> page_count(total, page_size) == 0 && result_range(page, page_size, total)
            == (0int, 0int),
{
}

/// A page that is there shows entries of the log, as many as a page holds, but
/// for the last, which shows what is left up to the last entry. The next page
/// goes on where it ends.
pub proof fn law_pages_follow_each_other(page: nat, page_size: nat, total: int)
    requires
        page_size > 0,
        page * page_size < total,
    ensures
        ({
            let (first, last) = result_range(page, page_size, total);
            &&& 1 <= first <= last <= total
            &&& first == page * page_size + 1
            &&& last - first + 1 <= page_size
            &&& last < total ==> last - first + 1 == page_size && result_range(
                page + 1,
                page_size,
                total,
            ).0 == last + 1
        }),
        page == 0 ==> result_range(page, page_size, total).0 == 1,
{
    assert((page + 1) * page_size == page * page_size + page_size) by (nonlinear_arith);
    assert(page * page_size >= 0) by (nonlinear_arith);
}

/// A choice of days keeps what is no older than that many days; a choice of a
/// count keeps that count, and the choice of the failed ones only takes those
/// away.
pub proof fn law_retention_keeps_what_was_chosen(
    choice: LogRetentionChoice,
    count: i64,
    now: Timestamp,
)
    requires
        0 <= now.seconds,
    ensures
        match choice {
            LogRetentionChoice::OneDay => retention_of(choice, count, now) matches
                RequestLogRetention::Since(t) && now.seconds - t.seconds == 24 * 3_600
                && t.nanos == now.nanos,
            LogRetentionChoice::OneWeek => retention_of(choice, count, now) matches
                RequestLogRetention::Since(t) && now.seconds - t.seconds == 7 * 24 * 3_600
                && t.nanos == now.nanos,
            LogRetentionChoice::OneMonth => retention_of(choice, count, now) matches
                RequestLogRetention::Since(t) && now.seconds - t.seconds == 30 * 24 * 3_600
                && t.nanos == now.nanos,
            LogRetentionChoice::OneYear => retention_of(choice, count, now) matches
                RequestLogRetention::Since(t) && now.seconds - t.seconds == 365 * 24 * 3_600
                && t.nanos == now.nanos,
            LogRetentionChoice::Count => retention_of(choice, count, now)
                == RequestLogRetention::Newest(count),
            LogRetentionChoice::Failed => retention_of(choice, count, now)
                == RequestLogRetention::Failed,
        },
{
}

/// The pages of a row stand in ascending order, the neighbours of the present
/// one are offered, and a gap is shown exactly where pages are left out.
pub proof fn law_row_shows_the_neighbours(current: nat, total: nat)
    requires
        current < total <= usize::MAX,
    ensures
        current > 0 ==> page_items(current, total).contains(
            LogPageItem::Page((current - 1) as usize),
        ),
        current + 1 < total ==> page_items(current, total).contains(
            LogPageItem::Page((current + 1) as usize),
        ),
        forall|i: int, j: int|
            0 <= i < j < 7 ==> match (
                #[trigger] page_items(current, total)[i],
                #[trigger] page_items(current, total)[j],
            ) {
                (LogPageItem::Page(a), LogPageItem::Page(b)) => a < b,
                _ => true,
            },
        page_items(current, total).contains(LogPageItem::Ellipsis) <==> total > 7,
        page_items(current, total).contains(LogPageItem::Empty) <==> total < 7,
{
    let row = page_items(current, total);
    law_seven_places(current, total);
    if total <= 7 {
        if current > 0 {
            assert(row[current - 1] == LogPageItem::Page((current - 1) as usize));
        }
        if current + 1 < total {
            assert(row[(current + 1) as int] == LogPageItem::Page((current + 1) as usize));
        }
        if total < 7 {
            assert(row[6] == LogPageItem::Empty);
        }
        assert(!row.contains(LogPageItem::Ellipsis));
    } else {
        assert(row[1] == LogPageItem::Ellipsis || row[5] == LogPageItem::Ellipsis);
        assert(row[0] is Page && row[6] is Page && row[2] is Page && row[3] is Page && row[4] is Page);
        assert(!row.contains(LogPageItem::Empty)) by {
            if row.contains(LogPageItem::Empty) {
                let k = choose|k: int| 0 <= k < row.len() && row[k] == LogPageItem::Empty;
                assert(k == 0 || k == 1 || k == 2 || k == 3 || k == 4 || k == 5 || k == 6);
            }
        }
        if current <= 2 {
            if current > 0 {
                assert(row[current - 1] == LogPageItem::Page((current - 1) as usize));
            }
            assert(row[(current + 1) as int] == LogPageItem::Page((current + 1) as usize));
        } else if current + 3 >= total {
            let k: int = current - total + 7;
            assert(row[k - 1] == LogPageItem::Page((current - 1) as usize));
            if current + 1 < total {
                assert(row[k + 1] == LogPageItem::Page((current + 1) as usize));
            }
        } else {
            assert(row[2] == LogPageItem::Page((current - 1) as usize));
            assert(row[4] == LogPageItem::Page((current + 1) as usize));
        }
    }
}

/// The details of an entry hold its endpoint, and its upstream and error as
/// far as there are any.
pub proof fn law_details_tell_the_entry(log: &RequestLog)
    ensures
        text::occurs_in(hover_text(log), "endpoint: "@ + log.endpoint@ + "\nstatus: "@),
        log.error matches Some(error) ==> (error@.len() > 0 ==> text::occurs_in(
            hover_text(log),
            "\nerror: "@ + error@,
        )),
        log.upstream_name matches Some(name) ==> ("上游: "@ + name@).is_prefix_of(
            hover_text(log),
        ),
{
    let t = hover_text(log);
    let front = match log.upstream_name {
        Some(name) => "上游: "@ + name@ + "\n"@,
        None => Seq::empty(),
    };
    let a = "endpoint: "@ + log.endpoint@ + "\nstatus: "@;
    assert(t.subrange(front.len() as int, (front.len() + a.len()) as int) =~= a);
    assert(text::occurs_at(t, a, front.len() as int));
    if log.error is Some && log.error->0@.len() > 0 {
        let b = "\nerror: "@ + log.error->0@;
        let at: int = t.len() - b.len();
        assert(t.subrange(at, at + b.len()) =~= b);
        assert(text::occurs_at(t, b, at));
    }
    if log.upstream_name is Some {
        let p = "上游: "@ + log.upstream_name->0@;
        assert(t.take(p.len() as int) =~= p);
        assert(p.is_prefix_of(t));
    }
}

} // verus!
