//! How the sessions whose caches are kept alive are shown.

use super::session::CacheKeepaliveSessionSnapshot;
use crate::double;
use crate::float64::Double;
use crate::number;
use crate::text;
use vstd::prelude::*;
use vstd::utf8;

verus! {

/// What is shown of a session's state.
pub open spec fn status_of(session: &CacheKeepaliveSessionSnapshot) -> Seq<char> {
    if session.disabled_reason is Some {
        "已停用"@
    } else if session.next_keepalive_seconds == 0 {
        "活跃"@
    } else {
        "等待保活"@
    }
}

/// What is shown of a session's state.
pub fn status_text(session: &CacheKeepaliveSessionSnapshot) -> (r: &'static str)
    ensures
        r@ == status_of(session),
{
    if session.disabled_reason.is_some() {
        "已停用"
    } else if session.next_keepalive_seconds == 0 {
        "活跃"
    } else {
        "等待保活"
    }
}

/// A number of seconds in its two largest units; none below zero.
pub open spec fn seconds_text(seconds: int) -> Seq<char> {
    let n = if seconds > 0 {
        seconds
    } else {
        0
    };
    if n < 60 {
        number::int_text(n) + "s"@
    } else if n < 3600 {
        number::int_text(n / 60) + "m "@ + number::int_text(n % 60) + "s"@
    } else {
        number::int_text(n / 3600) + "h "@ + number::int_text(n % 3600 / 60) + "m"@
    }
}

/// A number of seconds in its two largest units.
pub fn format_seconds(seconds: i64) -> (r: String)
    ensures
        r@ == seconds_text(seconds as int),
{
    let n: i64 = if seconds > 0 {
        seconds
    } else {
        0
    };
    if n < 60 {
        return text::concat(number::i64_text(n).as_str(), "s");
    }
    if n < 3600 {
        return text::concat4(
            number::i64_text(n / 60).as_str(),
            "m ",
            number::i64_text(n % 60).as_str(),
            "s",
        );
    }
    text::concat4(
        number::i64_text(n / 3600).as_str(),
        "h ",
        number::i64_text(n % 3600 / 60).as_str(),
        "m",
    )
}

/// When a session is kept alive next.
pub fn format_next_keepalive(session: &CacheKeepaliveSessionSnapshot) -> (r: String)
    ensures
        r@ == if session.disabled_reason is Some {
            "已停用"@
        } else if session.next_keepalive_seconds <= 0 {
            "即将执行"@
        } else {
            seconds_text(session.next_keepalive_seconds as int)
        },
{
    if session.disabled_reason.is_some() {
        "已停用".to_string()
    } else if session.next_keepalive_seconds <= 0 {
        "即将执行".to_string()
    } else {
        format_seconds(session.next_keepalive_seconds)
    }
}

/// A size in bytes, or in the largest of two units of 1024 that it reaches.
pub open spec fn size_text(bytes: int) -> Seq<char> {
    if bytes < 1024 {
        number::int_text(bytes) + " B"@
    } else if bytes < 1_048_576 {
        double::fixed(double::divided_by(double::of_int(bytes), 1024), 1) + " KB"@
    } else {
        double::fixed(double::divided_by(double::of_int(bytes), 1_048_576), 1) + " MB"@
    }
}

/// The size of a request's body.
pub fn format_body_bytes(bytes: usize) -> (r: String)
    ensures
        r@ == size_text(bytes as int),
{
    if bytes < 1024 {
        text::concat(number::usize_text(bytes).as_str(), " B")
    } else if bytes < 1_048_576 {
        let size: Double = Double::from_u64(bytes as u64).over(1024);
        text::concat(size.to_fixed(1).as_str(), " KB")
    } else {
        let size: Double = Double::from_u64(bytes as u64).over(1_048_576);
        text::concat(size.to_fixed(1).as_str(), " MB")
    }
}

/// Whether a key can be cut into the ends that are shown of a long one.
pub open spec fn has_ends(key: Seq<char>) -> bool {
    let size = utf8::encode_utf8(key).len();
    size > 16 ==> text::can_cut(key, 8) && text::can_cut(key, size - 8)
}

/// A key by its two ends of eight bytes, where it is long.
pub open spec fn key_ends(key: Seq<char>) -> Seq<char> {
    let size = utf8::encode_utf8(key).len();
    if size <= 16 {
        key
    } else {
        text::bytes_before(key, 8) + "..."@ + text::bytes_from(key, size - 8)
    }
}

/// A key by its two ends, where it is long.
pub fn short_key(key: &str) -> (r: String)
    requires
        has_ends(key@),
    ensures
        r@ == key_ends(key@),
{
    let size: usize = key.as_bytes().len();
    if size <= 16 {
        return key.to_string();
    }
    let head: (&str, &str) = text::cut(key, 8);
    let tail: (&str, &str) = text::cut(key, size - 8);
    text::concat3(head.0, "...", tail.1)
}

/// Every ASCII key can be shown: a long one by its first and last eight
/// characters.
pub proof fn law_ascii_key_is_shown(key: Seq<char>)
    requires
        text::is_ascii_text(key),
    ensures
        has_ends(key),
        key_ends(key) == if key.len() <= 16 {
            key
        } else {
            key.take(8) + "..."@ + key.skip(key.len() - 8)
        },
{
    text::law_ascii_is_cut_by_characters(key, 0);
    if key.len() > 16 {
        text::law_ascii_is_cut_by_characters(key, 8);
        text::law_ascii_is_cut_by_characters(key, key.len() - 8);
    }
}

/// A text of at most so many characters: a longer one ends in a full stop.
pub open spec fn compacted(s: Seq<char>, max_chars: nat) -> Seq<char> {
    if s.len() <= max_chars {
        s
    } else if max_chars == 0 {
        seq!['.']
    } else {
        s.take(max_chars - 1).push('.')
    }
}

/// A text of at most so many characters.
pub fn compact_text(value: &str, max_chars: usize) -> (r: String)
    ensures
        r@ == compacted(value@, max_chars as nat),
{
    let chars: Vec<char> = text::to_chars(value);
    if chars.len() <= max_chars {
        return value.to_string();
    }
    let keep: usize = if max_chars > 0 {
        max_chars - 1
    } else {
        0
    };
    let mut out: String = text::slice_chars(&chars, 0, keep);
    out.push('.');
    proof {
        assert(out@ =~= compacted(value@, max_chars as nat));
    }
    out
}

/// A compacted text has no more characters than it may, as long as there may
/// be any.
pub proof fn law_compacted_is_short(s: Seq<char>, max_chars: nat)
    requires
        max_chars > 0,
    ensures
        compacted(s, max_chars).len() <= max_chars,
        s.len() <= max_chars ==> compacted(s, max_chars) == s,
{
}

/// The heading of a session.
pub fn session_tab_title(session: &CacheKeepaliveSessionSnapshot) -> (r: String)
    ensures
        r@ == compacted(session.upstream_name@, 18) + " / "@ + compacted(session.model@, 20)
            + " / "@ + status_of(session),
{
    let upstream: String = compact_text(session.upstream_name.as_str(), 18);
    let model: String = compact_text(session.model.as_str(), 20);
    let head: String = text::concat3(upstream.as_str(), " / ", model.as_str());
    text::concat3(head.as_str(), " / ", status_text(session))
}

/// The place of a session, from some place on.
pub open spec fn session_place(
    sessions: Seq<CacheKeepaliveSessionSnapshot>,
    key: Seq<char>,
    from: int,
) -> Option<int>
    decreases sessions.len() - from,
{
    if from < 0 || from >= sessions.len() {
        None
    } else if sessions[from].key@ == key {
        Some(from)
    } else {
        session_place(sessions, key, from + 1)
    }
}

/// The place of the session that is shown: the chosen one, or the first.
pub open spec fn shown_place(
    sessions: Seq<CacheKeepaliveSessionSnapshot>,
    selected: Option<Seq<char>>,
) -> Option<int> {
    let first = if sessions.len() > 0 {
        Some(0int)
    } else {
        None
    };
    match selected {
        Some(key) => match session_place(sessions, key, 0) {
            Some(i) => Some(i),
            None => first,
        },
        None => first,
    }
}

fn find_session(sessions: &Vec<CacheKeepaliveSessionSnapshot>, key: &str) -> (r: Option<usize>)
    ensures
        match (r, session_place(sessions@, key@, 0)) {
            (Some(i), Some(j)) => i == j && i < sessions@.len(),
            (None, None) => true,
            _ => false,
        },
{
    let mut i: usize = 0;
    while i < sessions.len()
        invariant
            i <= sessions@.len(),
            session_place(sessions@, key@, 0) == session_place(sessions@, key@, i as int),
        decreases sessions@.len() - i,
    {
        if text::same(sessions[i].key.as_str(), key) {
            return Some(i);
        }
        i = i + 1;
    }
    None
}

/// The session that is shown.
pub fn selected_session<'a>(
    sessions: &'a Vec<CacheKeepaliveSessionSnapshot>,
    selected: &Option<String>,
) -> (r: Option<&'a CacheKeepaliveSessionSnapshot>)
    ensures
        match (r, shown_place(sessions@, text::opt_view(*selected))) {
            (Some(found), Some(i)) => 0 <= i < sessions@.len() && *found == sessions@[i],
            (None, None) => true,
            _ => false,
        },
{
    if let Some(key) = selected {
        if let Some(i) = find_session(sessions, key.as_str()) {
            return Some(&sessions[i]);
        }
    }
    if sessions.len() > 0 {
        Some(&sessions[0])
    } else {
        None
    }
}

/// The choice that is kept: one that is gone falls back to the first session.
pub fn sync_selected(
    sessions: &Vec<CacheKeepaliveSessionSnapshot>,
    selected: Option<String>,
) -> (r: Option<String>)
    ensures
        text::opt_view(r) == match shown_place(sessions@, text::opt_view(selected)) {
            Some(i) => Some(sessions@[i].key@),
            None => None,
        },
{
    if let Some(key) = selected {
        proof {
            lemma_session_place(sessions@, key@, 0);
        }
        if find_session(sessions, key.as_str()).is_some() {
            return Some(key);
        }
    }
    if sessions.len() > 0 {
        Some(sessions[0].key.clone())
    } else {
        None
    }
}

proof fn lemma_session_place(
    sessions: Seq<CacheKeepaliveSessionSnapshot>,
    key: Seq<char>,
    from: int,
)
    requires
        0 <= from,
    ensures
        session_place(sessions, key, from) matches Some(i) ==> from <= i < sessions.len()
            && sessions[i].key@ == key,
    decreases sessions.len() - from,
{
    if from < sessions.len() {
        lemma_session_place(sessions, key, from + 1);
    }
}

/// The number of sessions behind the tab's label, as far as it goes.
pub const TAB_COUNT_MAX: usize = 999;

/// The label of a tab with a count of three digits.
pub open spec fn counted_label(label: Seq<char>, count: nat) -> Seq<char> {
    let shown = if count > TAB_COUNT_MAX {
        TAB_COUNT_MAX as nat
    } else {
        count
    };
    label + "("@ + number::padded_text(shown, 3) + ")"@
}

/// The label of a tab with a count of three digits.
pub fn counted_tab(label: &str, count: usize) -> (r: String)
    ensures
        r@ == counted_label(label@, count as nat),
{
    let shown: usize = if count > TAB_COUNT_MAX {
        TAB_COUNT_MAX
    } else {
        count
    };
    text::concat4(label, "(", number::padded(shown as u64, 3).as_str(), ")")
}

/// The label of the tab of these sessions.
pub fn cache_keepalive_tab_text(count: usize) -> (r: String)
    ensures
        r@ == counted_label("缓存保持"@, count as nat),
{
    counted_tab("缓存保持", count)
}

/// The label of the tab of the requests that run.
pub fn active_connections_tab_text(count: usize) -> (r: String)
    ensures
        r@ == counted_label("活跃连接"@, count as nat),
{
    counted_tab("活跃连接", count)
}

/// A session that was switched off is shown as that whatever else holds of it.
/// Another one waits exactly as long as its next keepalive is not due.
pub proof fn law_status_tells_whether_a_session_waits(session: &CacheKeepaliveSessionSnapshot)
    ensures
        status_of(session) == "已停用"@ <==> session.disabled_reason is Some,
        status_of(session) == "活跃"@ <==> session.disabled_reason is None
            && session.next_keepalive_seconds == 0,
        status_of(session) == "等待保活"@ <==> session.disabled_reason is None
            && session.next_keepalive_seconds != 0,
{
    reveal_strlit("已停用");
    reveal_strlit("活跃");
    reveal_strlit("等待保活");
    assert("已停用"@.len() == 3);
    assert("活跃"@.len() == 2);
    assert("等待保活"@.len() == 4);
}

/// Seconds are shown in hours and minutes, minutes and seconds, or seconds:
/// put together again, they are the seconds, but for those beyond the minutes
/// of hours. There are never as many of the smaller unit as make one of the
/// larger.
pub proof fn law_seconds_are_shown_in_two_units(hours: int, minutes: int, seconds: int)
    requires
        0 <= hours,
        0 <= minutes < 60,
        0 <= seconds < 60,
    ensures
        seconds_text(seconds) == number::int_text(seconds) + "s"@,
        minutes > 0 ==> seconds_text(minutes * 60 + seconds) == number::int_text(minutes)
            + "m "@ + number::int_text(seconds) + "s"@,
        hours > 0 ==> seconds_text(hours * 3600 + minutes * 60 + seconds) == number::int_text(
            hours,
        ) + "h "@ + number::int_text(minutes) + "m"@,
        seconds_text(-seconds) == seconds_text(0),
{
    let t: int = minutes * 60 + seconds;
    assert(t / 60 == minutes && t % 60 == seconds);
    let u: int = hours * 3600 + t;
    assert(u / 3600 == hours && u % 3600 == t);
}

/// Sizes are shown in whole bytes below a kilobyte, and whole kilobytes and
/// megabytes as such.
pub proof fn law_whole_sizes_are_shown(n: int)
    requires
        0 < n < 1024,
    ensures
        size_text(n) == number::int_text(n) + " B"@,
        size_text(n * 1024) == double::fixed(double::of_int(n), 1) + " KB"@,
        size_text(n * 1_048_576) == double::fixed(double::of_int(n), 1) + " MB"@,
{
    double::law_division_undoes_multiplication(n, 1024);
    double::law_division_undoes_multiplication(n, 1_048_576);
}

/// The chosen session is shown as long as it is there; otherwise the first is,
/// and none where there is none.
pub proof fn law_chosen_session_is_shown(
    sessions: Seq<CacheKeepaliveSessionSnapshot>,
    key: Seq<char>,
)
    ensures
        shown_place(sessions, None) is Some <==> sessions.len() > 0,
        sessions.len() > 0 ==> shown_place(sessions, None) == Some(0int),
        match shown_place(sessions, Some(key)) {
            Some(i) => 0 <= i < sessions.len() && (sessions[i].key@ == key || (i == 0 && forall|
                j: int,
            |
                0 <= j < sessions.len() ==> (#[trigger] sessions[j]).key@ != key)),
            None => sessions.len() == 0,
        },
{
    lemma_first_session(sessions, key, 0);
}

/// The place of a session is the first that has its key.
proof fn lemma_first_session(
    sessions: Seq<CacheKeepaliveSessionSnapshot>,
    key: Seq<char>,
    from: int,
)
    requires
        0 <= from <= sessions.len(),
    ensures
        match session_place(sessions, key, from) {
            Some(i) => from <= i < sessions.len() && sessions[i].key@ == key,
            None => forall|j: int|
                from <= j < sessions.len() ==> (#[trigger] sessions[j]).key@ != key,
        },
    decreases sessions.len() - from,
{
    if from < sessions.len() && sessions[from].key@ != key {
        lemma_first_session(sessions, key, from + 1);
    }
}

/// A tab counts up to 999 and no further.
pub proof fn law_tab_counts_to_its_limit(label: Seq<char>, count: nat)
    ensures
        count <= 999 ==> counted_label(label, count) == label + "("@ + number::padded_text(count, 3)
            + ")"@,
        count >= 999 ==> counted_label(label, count) == counted_label(label, 999),
{
}

} // verus!
