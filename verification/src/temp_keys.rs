//! Keys for others: what the form says, what a key's state is, and how it is
//! shown.

use crate::clock;
use crate::clock::{CivilTime, Timestamp};
use crate::duration_text;
use crate::float64;
use crate::logs;
use crate::models::TemporaryAccessKey;
use crate::number;
use crate::text;
use crate::token_amount;
use vstd::prelude::*;

verus! {

/// How long a copied key is marked as copied, in nanoseconds.
pub const COPY_FEEDBACK_NANOS: u128 = 2_000_000_000;

/// The form of a key, for a new one or one that is edited.
#[derive(Debug)]
pub struct TempKeyForm {
    pub name: String,
    pub key_value: String,
    pub limit_requests: bool,
    pub request_limit_input: String,
    pub limit_tokens: bool,
    pub token_limit_input: String,
    pub limit_time: bool,
    pub duration_input: String,
}

/// The limits of a key.
#[derive(Debug, Clone, Copy, PartialEq, Eq, Structural)]
pub struct TempKeyLimits {
    pub request_limit: Option<i64>,
    pub token_limit: Option<i64>,
    pub expires_at: Option<i64>,
}

/// The number of requests that a form allows.
pub open spec fn request_limit_of(form: &TempKeyForm) -> Result<Option<int>, Seq<char>> {
    if !form.limit_requests {
        Ok(None)
    } else {
        match number::int_of_text(text::trimmed(form.request_limit_input@)) {
            Some(n) => if n < i64::MIN || n > i64::MAX {
                Err("成功请求次数 需要填写正整数"@)
            } else if n <= 0 {
                Err("成功请求次数 必须大于 0"@)
            } else {
                Ok(Some(n))
            },
            None => Err("成功请求次数 需要填写正整数"@),
        }
    }
}

/// The number of tokens that a form allows.
pub open spec fn token_limit_of(form: &TempKeyForm) -> Result<Option<int>, Seq<char>> {
    if !form.limit_tokens {
        Ok(None)
    } else {
        match token_amount::amount_of(form.token_limit_input@) {
            Ok(n) => if n > 0 {
                Ok(Some(n))
            } else {
                Err("总 token 上限必须大于 0"@)
            },
            Err(message) => Err("总 token 上限 "@ + message),
        }
    }
}

/// When a key of a form that is sent now expires.
pub open spec fn expiry_of(form: &TempKeyForm, now: int) -> Result<Option<int>, Seq<char>> {
    if !form.limit_time {
        Ok(None)
    } else {
        match duration_text::duration_of(form.duration_input@) {
            Ok(seconds) => Ok(Some(now + seconds)),
            Err(message) => Err(message),
        }
    }
}

/// An optional number as a mathematical one.
pub open spec fn int_opt(n: Option<i64>) -> Option<int> {
    match n {
        Some(n) => Some(n as int),
        None => None,
    }
}

/// Whether an outcome is the limits that a form gives, or the first thing that
/// is wrong with it.
pub open spec fn are_limits(
    r: Result<TempKeyLimits, String>,
    form: &TempKeyForm,
    now: int,
) -> bool {
    match (request_limit_of(form), token_limit_of(form), expiry_of(form, now)) {
        (Err(m), _, _) => r matches Err(e) && e@ == m,
        (_, Err(m), _) => r matches Err(e) && e@ == m,
        (_, _, Err(m)) => r matches Err(e) && e@ == m,
        (Ok(requests), Ok(tokens), Ok(expiry)) => r matches Ok(limits) && int_opt(
            limits.request_limit,
        ) == requests && int_opt(limits.token_limit) == tokens && int_opt(limits.expires_at)
            == expiry,
    }
}

/// Whether the moment at which a key of a form expires is one that the numbers
/// reach.
pub open spec fn expiry_reaches(form: &TempKeyForm, now: int) -> bool {
    match expiry_of(form, now) {
        Ok(Some(at)) => at <= i64::MAX,
        _ => true,
    }
}

/// Whether the moment at which a key of a form expires is one that the numbers
/// reach, where the other limits are in order.
pub open spec fn expiry_fits(form: &TempKeyForm, now: int) -> bool {
    request_limit_of(form) is Ok && token_limit_of(form) is Ok ==> expiry_reaches(form, now)
}

/// The whole number that a limit is, more than zero.
fn parse_optional_limit(form: &TempKeyForm) -> (r: Result<Option<i64>, String>)
    ensures
        token_amount::is_optional_outcome(r, request_limit_of(form)),
{
    if !form.limit_requests {
        return Ok(None);
    }
    let bare: String = text::trim(form.request_limit_input.as_str());
    match number::parse_i64(bare.as_str()) {
        Some(n) => {
            if n <= 0 {
                Err("成功请求次数 必须大于 0".to_string())
            } else {
                Ok(Some(n))
            }
        },
        None => Err("成功请求次数 需要填写正整数".to_string()),
    }
}

fn parse_token_limit(form: &TempKeyForm) -> (r: Result<Option<i64>, String>)
    ensures
        token_amount::is_optional_outcome(r, token_limit_of(form)),
{
    if !form.limit_tokens {
        return Ok(None);
    }
    match token_amount::parse_token_amount(form.token_limit_input.as_str()) {
        Ok(n) => {
            if n > 0 {
                Ok(Some(n))
            } else {
                Err("总 token 上限必须大于 0".to_string())
            }
        },
        Err(message) => Err(text::concat("总 token 上限 ", message.as_str())),
    }
}

fn parse_expires_at(form: &TempKeyForm, now: i64) -> (r: Result<Option<i64>, String>)
    requires
        expiry_reaches(form, now as int),
    ensures
        token_amount::is_optional_outcome(r, expiry_of(form, now as int)),
{
    if !form.limit_time {
        return Ok(None);
    }
    match duration_text::parse_duration_seconds(form.duration_input.as_str()) {
        Ok(seconds) => {
            proof {
                duration_text::lemma_duration_positive(form.duration_input@);
            }
            Ok(Some(now + seconds))
        },
        Err(message) => Err(message),
    }
}

/// The limits that a form gives at some moment, or what is wrong with it.
pub fn limits_at(form: &TempKeyForm, now: i64) -> (r: Result<TempKeyLimits, String>)
    requires
        expiry_fits(form, now as int),
    ensures
        are_limits(r, form, now as int),
{
    let request_limit: Option<i64> = match parse_optional_limit(form) {
        Ok(limit) => limit,
        Err(message) => {
            return Err(message);
        },
    };
    let token_limit: Option<i64> = match parse_token_limit(form) {
        Ok(limit) => limit,
        Err(message) => {
            return Err(message);
        },
    };
    let expires_at: Option<i64> = match parse_expires_at(form, now) {
        Ok(at) => at,
        Err(message) => {
            return Err(message);
        },
    };
    Ok(TempKeyLimits { request_limit, token_limit, expires_at })
}

/// The value of a key: the one in the form, or a generated one where that is
/// blank.
pub open spec fn value_of(form: &TempKeyForm, generated: Seq<char>) -> Seq<char> {
    let given = text::trimmed(form.key_value@);
    if given.len() == 0 {
        "cs-tmp-"@ + generated
    } else {
        given
    }
}

/// The value of a key.
pub fn key_value(form: &TempKeyForm, generated: &str) -> (r: String)
    ensures
        r@ == value_of(form, generated@),
{
    let given: String = text::trim(form.key_value.as_str());
    if text::is_empty(given.as_str()) {
        text::concat("cs-tmp-", generated)
    } else {
        given
    }
}

/// Whether a key is the one that a form makes.
pub open spec fn is_key_of(
    key: &TemporaryAccessKey,
    form: &TempKeyForm,
    id: String,
    generated: Seq<char>,
    limits: TempKeyLimits,
) -> bool {
    &&& key.id == id
    &&& key.name@ == text::trimmed(form.name@)
    &&& key.key_value@ == value_of(form, generated)
    &&& key.enabled
    &&& key.request_limit == limits.request_limit
    &&& key.requests_used == 0
    &&& key.token_limit == limits.token_limit
    &&& key.tokens_used == 0
    &&& key.expires_at == limits.expires_at
}

/// The key that a form makes, with a given identifier and generated value at a
/// given moment.
pub fn key_at(form: &TempKeyForm, id: String, generated: &str, now: i64) -> (r: Result<
    TemporaryAccessKey,
    String,
>)
    requires
        expiry_fits(form, now as int),
    ensures
        match r {
            Ok(key) => exists|limits: TempKeyLimits|
                #[trigger] are_limits(Ok(limits), form, now as int) && is_key_of(
                    &key,
                    form,
                    id,
                    generated@,
                    limits,
                ),
            Err(message) => are_limits(Err(message), form, now as int),
        },
{
    match limits_at(form, now) {
        Ok(limits) => {
            let key: TemporaryAccessKey = TemporaryAccessKey::new(
                id,
                text::trim(form.name.as_str()),
                key_value(form, generated),
                limits.request_limit,
                limits.token_limit,
                limits.expires_at,
            );
            assert(are_limits(Ok(limits), form, now as int));
            Ok(key)
        },
        Err(message) => Err(message),
    }
}

/// The latest second that the system's clock shows.
pub const LATEST_NOW: i64 = 8_210_267_000_000;

proof fn lemma_problem_holds_always(form: &TempKeyForm, message: String, now: int, other: int)
    requires
        are_limits(Err(message), form, now),
    ensures
        are_limits(Err(message), form, other),
{
}

/// The key that a form makes now, with a new identifier, and a new value where
/// the form has none.
pub fn create_temp_key(form: &TempKeyForm) -> (r: Result<TemporaryAccessKey, String>)
    requires
        expiry_fits(form, LATEST_NOW as int),
    ensures
        match r {
            Ok(key) => exists|now: i64, generated: String, limits: TempKeyLimits|
                #![trigger are_limits(Ok(limits), form, now as int), generated@]
                0 <= now <= LATEST_NOW && are_limits(Ok(limits), form, now as int)
                    && generated@.len() == 36 && is_key_of(
                    &key,
                    form,
                    key.id,
                    generated@,
                    limits,
                ) && key.id@.len() == 36,
            Err(message) => are_limits(Err(message), form, 0),
        },
{
    let now: i64 = clock::utc_now().seconds;
    let id: String = clock::new_uuid();
    let generated: String = clock::new_uuid();
    let r: Result<TemporaryAccessKey, String> = key_at(form, id, generated.as_str(), now);
    proof {
        if r is Ok {
            let limits = choose|limits: TempKeyLimits|
                #[trigger] are_limits(Ok(limits), form, now as int) && is_key_of(
                    &r->Ok_0,
                    form,
                    id,
                    generated@,
                    limits,
                );
            assert(are_limits(Ok(limits), form, now as int) && generated@.len() == 36);
        } else {
            lemma_problem_holds_always(form, r->Err_0, now as int, 0);
        }
    }
    r
}

/// What an edited key is stored with.
#[derive(Debug)]
pub struct EditedKey {
    pub name: String,
    pub key_value: String,
    pub limits: TempKeyLimits,
}

/// Whether an edited key is the one of a form.
pub open spec fn is_edited(
    edited: &EditedKey,
    form: &TempKeyForm,
    generated: Seq<char>,
    now: int,
) -> bool {
    &&& edited.name@ == text::trimmed(form.name@)
    &&& edited.key_value@ == value_of(form, generated)
    &&& are_limits(Ok(edited.limits), form, now)
}

/// What the key of a form is stored with at some moment, or what is wrong with
/// the form.
pub fn edited_at(form: &TempKeyForm, generated: &str, now: i64) -> (r: Result<EditedKey, String>)
    requires
        expiry_fits(form, now as int),
    ensures
        match r {
            Ok(edited) => is_edited(&edited, form, generated@, now as int),
            Err(message) => are_limits(Err(message), form, now as int),
        },
{
    match limits_at(form, now) {
        Ok(limits) => Ok(
            EditedKey {
                name: text::trim(form.name.as_str()),
                key_value: key_value(form, generated),
                limits,
            },
        ),
        Err(message) => Err(message),
    }
}

/// What the key of a form is stored with now, or what is wrong with the form.
pub fn save_temp_key_editor(form: &TempKeyForm) -> (r: Result<EditedKey, String>)
    requires
        expiry_fits(form, LATEST_NOW as int),
    ensures
        match r {
            Ok(edited) => exists|now: i64, generated: String|
                #![trigger is_edited(&edited, form, generated@, now as int)]
                0 <= now <= LATEST_NOW && is_edited(&edited, form, generated@, now as int)
                    && generated@.len() == 36,
            Err(message) => are_limits(Err(message), form, 0),
        },
{
    let now: i64 = clock::utc_now().seconds;
    let generated: String = clock::new_uuid();
    match edited_at(form, generated.as_str(), now) {
        Ok(edited) => {
            proof {
                assert(is_edited(&edited, form, generated@, now as int));
            }
            Ok(edited)
        },
        Err(message) => {
            proof {
                lemma_problem_holds_always(form, message, now as int, 0);
            }
            Err(message)
        },
    }
}

/// A form with nothing in it.
pub fn cleared_form() -> (r: TempKeyForm)
    ensures
        r.name@.len() == 0,
        r.key_value@.len() == 0,
        !r.limit_requests,
        r.request_limit_input@.len() == 0,
        !r.limit_tokens,
        r.token_limit_input@.len() == 0,
        !r.limit_time,
        r.duration_input@.len() == 0,
{
    TempKeyForm {
        name: String::new(),
        key_value: String::new(),
        limit_requests: false,
        request_limit_input: String::new(),
        limit_tokens: false,
        token_limit_input: String::new(),
        limit_time: false,
        duration_input: String::new(),
    }
}

/// The seconds that a key has left, none where it has expired.
pub open spec fn remaining(expires_at: int, now: int) -> int {
    if expires_at - now > 0 {
        expires_at - now
    } else {
        0
    }
}

/// Whether a form shows a key for editing.
pub open spec fn shows(form: &TempKeyForm, key: &TemporaryAccessKey, now: int) -> bool {
    &&& form.name@ == key.name@
    &&& form.key_value@ == key.key_value@
    &&& form.limit_requests == key.request_limit is Some
    &&& form.request_limit_input@ == match key.request_limit {
        Some(n) => number::int_text(n as int),
        None => Seq::empty(),
    }
    &&& form.limit_tokens == key.token_limit is Some
    &&& form.token_limit_input@ == match key.token_limit {
        Some(n) => token_amount::token_input(n as int),
        None => Seq::empty(),
    }
    &&& form.limit_time == key.expires_at is Some
    &&& form.duration_input@ == match key.expires_at {
        Some(at) => duration_text::duration_text(remaining(at as int, now)),
        None => Seq::empty(),
    }
}

/// The form in which a key is edited.
pub fn edit_form(key: &TemporaryAccessKey, now: i64) -> (r: TempKeyForm)
    requires
        key.expires_at matches Some(at) ==> i64::MIN <= at - now <= i64::MAX,
    ensures
        shows(&r, key, now as int),
{
    TempKeyForm {
        name: key.name.clone(),
        key_value: key.key_value.clone(),
        limit_requests: key.request_limit.is_some(),
        request_limit_input: match key.request_limit {
            Some(n) => number::i64_text(n),
            None => String::new(),
        },
        limit_tokens: key.token_limit.is_some(),
        token_limit_input: match key.token_limit {
            Some(n) => token_amount::format_token_input(n),
            None => String::new(),
        },
        limit_time: key.expires_at.is_some(),
        duration_input: match key.expires_at {
            Some(at) => duration_text::format_duration_seconds(
                if at - now > 0 {
                    at - now
                } else {
                    0
                },
            ),
            None => String::new(),
        },
    }
}

/// The place of the first key of an identifier, from some place on.
pub open spec fn key_place(keys: Seq<TemporaryAccessKey>, id: Seq<char>, from: int) -> Option<int>
    decreases keys.len() - from,
{
    if from < 0 || from >= keys.len() {
        None
    } else if keys[from].id@ == id {
        Some(from)
    } else {
        key_place(keys, id, from + 1)
    }
}

/// Whether a form shows a key for editing at some time.
pub open spec fn is_shown(form: &TempKeyForm, key: &TemporaryAccessKey) -> bool {
    exists|now: i64| 0 <= now <= LATEST_NOW && #[trigger] shows(form, key, now as int)
}

/// The form in which the key of an identifier is edited now, where there is
/// one.
pub fn open_temp_key_editor(keys: &Vec<TemporaryAccessKey>, id: &str) -> (r: Option<TempKeyForm>)
    requires
        key_place(keys@, id@, 0) matches Some(i) ==> (keys@[i].expires_at matches Some(at)
            ==> i64::MIN <= at - LATEST_NOW),
    ensures
        match key_place(keys@, id@, 0) {
            Some(i) => r matches Some(form) && is_shown(&form, &keys@[i]),
            None => r is None,
        },
{
    let mut i: usize = 0;
    while i < keys.len()
        invariant
            i <= keys@.len(),
            key_place(keys@, id@, 0) matches Some(i) ==> (keys@[i].expires_at matches Some(at)
                ==> i64::MIN <= at - LATEST_NOW),
            key_place(keys@, id@, 0) == key_place(keys@, id@, i as int),
        decreases keys@.len() - i,
    {
        if text::same(keys[i].id.as_str(), id) {
            let now: i64 = clock::utc_now().seconds;
            let form: TempKeyForm = edit_form(&keys[i], now);
            proof {
                assert(shows(&form, &keys@[i as int], now as int));
                assert(is_shown(&form, &keys@[i as int]));
            }
            return Some(form);
        }
        i = i + 1;
    }
    None
}

/// A key that is edited and saved at the same moment without a change keeps its
/// limits, unless it has expired or a limit is not positive or has more digits
/// than double precision holds.
pub proof fn law_edit_keeps_limits(form: &TempKeyForm, key: &TemporaryAccessKey, now: i64)
    requires
        shows(form, key, now as int),
        key.request_limit matches Some(n) ==> n > 0,
        key.token_limit matches Some(n) ==> n > 0 && float64::as_double(n as nat) == n,
        key.expires_at matches Some(at) ==> 0 < at - now <= i64::MAX,
    ensures
        request_limit_of(form) == Ok::<Option<int>, Seq<char>>(int_opt(key.request_limit)),
        token_limit_of(form) == Ok::<Option<int>, Seq<char>>(int_opt(key.token_limit)),
        expiry_of(form, now as int) == Ok::<Option<int>, Seq<char>>(int_opt(key.expires_at)),
{
    if let Some(n) = key.request_limit {
        let digits = number::int_text(n as int);
        number::lemma_int_text_round_trip(n as int);
        number::lemma_nat_text(n as nat);
        assert(number::is_digit(digits[0]));
        assert(number::is_digit(digits.last()));
        token_amount::lemma_trimmed_already(digits);
    }
    if let Some(n) = key.token_limit {
        token_amount::law_token_input_round_trip(n as int);
    }
    if let Some(at) = key.expires_at {
        duration_text::law_duration_round_trip(at - now);
    }
}

/// The state of a key at some moment.
pub open spec fn status_of(key: &TemporaryAccessKey, now: i64) -> Seq<char> {
    if !key.enabled {
        "已停用"@
    } else if key.expires_at is Some && key.expires_at->0 <= now {
        "已过期"@
    } else if key.request_limit is Some && key.requests_used >= key.request_limit->0 {
        "次数已用尽"@
    } else if key.token_limit is Some && key.tokens_used >= key.token_limit->0 {
        "用量已用尽"@
    } else {
        "正常"@
    }
}

/// The state of a key at some moment.
pub fn temp_key_status_at(key: &TemporaryAccessKey, now: i64) -> (r: &'static str)
    ensures
        r@ == status_of(key, now),
{
    if !key.enabled {
        return "已停用";
    }
    if let Some(at) = key.expires_at {
        if at <= now {
            return "已过期";
        }
    }
    if let Some(limit) = key.request_limit {
        if key.requests_used >= limit {
            return "次数已用尽";
        }
    }
    if let Some(limit) = key.token_limit {
        if key.tokens_used >= limit {
            return "用量已用尽";
        }
    }
    "正常"
}

/// The state of a key now.
pub fn temp_key_status(key: &TemporaryAccessKey) -> (r: &'static str)
    ensures
        exists|now: i64| 0 <= now <= LATEST_NOW && r@ == #[trigger] status_of(key, now),
        key.expires_at is None ==> r@ == status_of(key, 0),
{
    let now: i64 = clock::utc_now().seconds;
    let status: &'static str = temp_key_status_at(key, now);
    proof {
        assert(status@ == status_of(key, now));
    }
    status
}

/// The requests that a key has used, of those that it has.
pub fn request_limit_text(key: &TemporaryAccessKey) -> (r: String)
    ensures
        r@ == match key.request_limit {
            Some(limit) => number::int_text(key.requests_used as int) + "/"@ + number::int_text(
                limit as int,
            ),
            None => number::int_text(key.requests_used as int),
        },
{
    let used: String = number::i64_text(key.requests_used);
    match key.request_limit {
        Some(limit) => text::concat3(used.as_str(), "/", number::i64_text(limit).as_str()),
        None => used,
    }
}

/// The tokens that a key has used, of those that it has.
pub fn token_limit_text(key: &TemporaryAccessKey) -> (r: String)
    ensures
        r@ == match key.token_limit {
            Some(limit) => token_amount::token_input(key.tokens_used as int) + "/"@
                + token_amount::token_input(limit as int),
            None => token_amount::token_input(key.tokens_used as int),
        },
{
    let used: String = token_amount::format_token_input(key.tokens_used);
    match key.token_limit {
        Some(limit) => text::concat3(
            used.as_str(),
            "/",
            token_amount::format_token_input(limit).as_str(),
        ),
        None => used,
    }
}

/// A date and a time of day.
pub open spec fn expiry_text(t: CivilTime) -> Seq<char> {
    clock::year_text(t.year as int) + "-"@ + number::padded_text(t.month as nat, 2) + "-"@
        + number::padded_text(t.day as nat, 2) + " "@ + number::padded_text(t.hour as nat, 2)
        + ":"@ + number::padded_text(t.minute as nat, 2) + ":"@ + number::padded_text(
        t.second as nat,
        2,
    )
}

/// A date and a time of day.
pub fn format_expiry(t: CivilTime) -> (r: String)
    ensures
        r@ == expiry_text(t),
{
    let month: String = number::padded(t.month as u64, 2);
    let day: String = number::padded(t.day as u64, 2);
    let hour: String = number::padded(t.hour as u64, 2);
    let minute: String = number::padded(t.minute as u64, 2);
    let second: String = number::padded(t.second as u64, 2);
    let date: String = text::concat3(
        text::concat3(clock::format_year(t.year).as_str(), "-", month.as_str()).as_str(),
        "-",
        day.as_str(),
    );
    let clock: String = text::concat3(
        text::concat3(date.as_str(), " ", hour.as_str()).as_str(),
        ":",
        minute.as_str(),
    );
    text::concat3(clock.as_str(), ":", second.as_str())
}

/// When a key expires, as the machine's time zone shows it; a dash where it
/// does not, or at a time that no calendar shows.
pub fn format_expires_at(expires_at: Option<i64>) -> (r: String)
    requires
        expires_at matches Some(at) ==> clock::in_calendar(at) || clock::beyond_calendar(at),
    ensures
        match expires_at {
            Some(at) => if clock::beyond_calendar(at) {
                r@ == "-"@
            } else {
                exists|t: CivilTime|
                    t.wf() && clock::shown_at(t, at) && r@ == #[trigger] expiry_text(t)
            },
            None => r@ == "-"@,
        },
{
    match expires_at {
        Some(at) => {
            if at < -8_334_601_500_000 || at > 8_210_267_000_000 {
                return "-".to_string();
            }
            let t: CivilTime = clock::utc_to_local(Timestamp { seconds: at, nanos: 0 });
            format_expiry(t)
        },
        None => "-".to_string(),
    }
}

/// Whether a key of some identifier is on after its switch was pressed.
pub open spec fn toggled(keys: Seq<TemporaryAccessKey>, id: Seq<char>, from: int) -> bool
    decreases keys.len() - from,
{
    if 0 <= from < keys.len() {
        if keys[from].id@ == id {
            !keys[from].enabled
        } else {
            toggled(keys, id, from + 1)
        }
    } else {
        true
    }
}

/// Whether a key is on after its switch was pressed; an unknown one is.
pub fn toggle_temp_key(keys: &Vec<TemporaryAccessKey>, id: &str) -> (r: bool)
    ensures
        r == toggled(keys@, id@, 0),
{
    let mut i: usize = 0;
    while i < keys.len()
        invariant
            i <= keys@.len(),
            toggled(keys@, id@, 0) == toggled(keys@, id@, i as int),
        decreases keys@.len() - i,
    {
        if text::same(keys[i].id.as_str(), id) {
            return !keys[i].enabled;
        }
        i = i + 1;
    }
    true
}

/// What is said after a key was switched on or off.
pub fn toggle_status(enabled: bool) -> (r: &'static str)
    ensures
        r@ == if enabled {
            "临时 Key 已启用"@
        } else {
            "临时 Key 已停用"@
        },
{
    if enabled {
        "临时 Key 已启用"
    } else {
        "临时 Key 已停用"
    }
}

/// Whether a key is still marked as copied.
pub fn shows_copied(copied_at: u128, now: u128) -> (r: bool)
    ensures
        r == (now - copied_at < COPY_FEEDBACK_NANOS),
{
    now < copied_at || now - copied_at < COPY_FEEDBACK_NANOS
}

/// The name of a key in the list.
pub fn name_label(key: &TemporaryAccessKey) -> (r: String)
    ensures
        r@ == if key.name@.len() == 0 {
            "-"@
        } else {
            key.name@
        },
{
    if text::is_empty(key.name.as_str()) {
        "-".to_string()
    } else {
        key.name.clone()
    }
}

/// The limits of a key are those that its form asks for: each is there exactly
/// where its box is ticked, is what its own field says, and is more than
/// nothing. A key expires after the moment at which it was made.
pub proof fn law_limits_are_those_asked_for(form: &TempKeyForm, now: i64, limits: TempKeyLimits)
    requires
        are_limits(Ok(limits), form, now as int),
    ensures
        limits.request_limit is Some <==> form.limit_requests,
        limits.token_limit is Some <==> form.limit_tokens,
        limits.expires_at is Some <==> form.limit_time,
        limits.request_limit matches Some(n) ==> n > 0 && number::int_of_text(
            text::trimmed(form.request_limit_input@),
        ) == Some(n as int),
        limits.token_limit matches Some(n) ==> n > 0 && token_amount::amount_of(
            form.token_limit_input@,
        ) == Ok::<int, Seq<char>>(n as int),
        limits.expires_at matches Some(at) ==> at > now && duration_text::duration_of(
            form.duration_input@,
        ) == Ok::<int, Seq<char>>(at - now),
{
    duration_text::lemma_duration_positive(form.duration_input@);
}

/// A form is refused exactly where a limit that it asks for is not given or is
/// not more than nothing; what stands in the field of a limit that it does not
/// ask for is not looked at.
pub proof fn law_form_is_refused_for_a_bad_limit(form: &TempKeyForm, now: i64, r: Result<
    TempKeyLimits,
    String,
>)
    requires
        are_limits(r, form, now as int),
    ensures
        r is Err <==> {
            ||| form.limit_requests && match number::int_of_text(
                text::trimmed(form.request_limit_input@),
            ) {
                Some(n) => n <= 0 || n > i64::MAX,
                None => true,
            }
            ||| form.limit_tokens && match token_amount::amount_of(form.token_limit_input@) {
                Ok(n) => n <= 0,
                Err(_) => true,
            }
            ||| form.limit_time && duration_text::duration_of(form.duration_input@) is Err
        },
{
}

/// A new key can be used at once: nothing of it is used up, and it has not
/// expired. It has the name of its form, and the value too, unless that is
/// blank.
pub proof fn law_new_key_is_usable(
    key: &TemporaryAccessKey,
    form: &TempKeyForm,
    id: String,
    generated: Seq<char>,
    limits: TempKeyLimits,
    now: i64,
)
    requires
        are_limits(Ok(limits), form, now as int),
        is_key_of(key, form, id, generated, limits),
    ensures
        status_of(key, now) == "正常"@,
        key.id == id,
        key.name@ == text::trimmed(form.name@),
        text::trimmed(form.key_value@).len() > 0 ==> key.key_value@ == text::trimmed(
            form.key_value@,
        ),
        text::trimmed(form.key_value@).len() == 0 ==> key.key_value@ == "cs-tmp-"@ + generated,
        key.key_value@.len() > 0,
        key.request_limit is Some <==> form.limit_requests,
        key.token_limit is Some <==> form.limit_tokens,
        key.expires_at is Some <==> form.limit_time,
{
    law_limits_are_those_asked_for(form, now, limits);
    reveal_strlit("cs-tmp-");
}

/// An edited key has the name and value of its form, and a value that is not
/// blank.
pub proof fn law_edited_key_is_of_the_form(
    edited: &EditedKey,
    form: &TempKeyForm,
    generated: Seq<char>,
    now: i64,
)
    requires
        is_edited(edited, form, generated, now as int),
    ensures
        edited.name@ == text::trimmed(form.name@),
        text::trimmed(form.key_value@).len() > 0 ==> edited.key_value@ == text::trimmed(
            form.key_value@,
        ),
        text::trimmed(form.key_value@).len() == 0 ==> edited.key_value@ == "cs-tmp-"@ + generated,
        edited.limits.request_limit is Some <==> form.limit_requests,
        edited.limits.token_limit is Some <==> form.limit_tokens,
        edited.limits.expires_at matches Some(at) ==> at > now,
{
    law_limits_are_those_asked_for(form, now, edited.limits);
}

/// A key is in order exactly while it is switched on, its time is not over and
/// it has requests and tokens left. A switched-off key is called that whatever
/// else holds of it, and the end of its time is named before what it used up.
pub proof fn law_key_is_in_order_until_it_runs_out(key: &TemporaryAccessKey, now: i64)
    ensures
        status_of(key, now) == "正常"@ <==> {
            &&& key.enabled
            &&& key.expires_at matches Some(at) ==> now < at
            &&& key.request_limit matches Some(n) ==> key.requests_used < n
            &&& key.token_limit matches Some(n) ==> key.tokens_used < n
        },
        status_of(key, now) == "已停用"@ <==> !key.enabled,
        status_of(key, now) == "已过期"@ <==> key.enabled && (key.expires_at matches Some(at) && at
            <= now),
        status_of(key, now) == "次数已用尽"@ ==> (key.request_limit matches Some(n)
            && key.requests_used >= n),
        status_of(key, now) == "用量已用尽"@ ==> (key.token_limit matches Some(n) && key.tokens_used
            >= n),
{
    reveal_strlit("正常");
    reveal_strlit("已停用");
    reveal_strlit("已过期");
    reveal_strlit("次数已用尽");
    reveal_strlit("用量已用尽");
    assert("正常"@.len() == 2);
    assert("已停用"@[1] == '停');
    assert("已过期"@[1] == '过');
    assert("次数已用尽"@[0] == '次');
    assert("用量已用尽"@[0] == '用');
}

/// A key that has expired stays so, and one without a time of its own never
/// does.
pub proof fn law_expiry_lasts(key: &TemporaryAccessKey, now: i64, later: i64)
    requires
        now <= later,
    ensures
        status_of(key, now) == "已过期"@ ==> status_of(key, later) == "已过期"@,
        key.expires_at is None ==> status_of(key, now) == status_of(key, later) && status_of(
            key,
            now,
        ) != "已过期"@,
{
    law_key_is_in_order_until_it_runs_out(key, now);
    law_key_is_in_order_until_it_runs_out(key, later);
}

/// Pressing the switch of the one key of an identifier turns that key around.
pub proof fn law_switch_turns_its_key_around(
    keys: Seq<TemporaryAccessKey>,
    id: Seq<char>,
    from: int,
    i: int,
)
    requires
        0 <= from <= i < keys.len(),
        keys[i].id@ == id,
        forall|j: int| from <= j < i ==> (#[trigger] keys[j]).id@ != id,
    ensures
        toggled(keys, id, from) == !keys[i].enabled,
        key_place(keys, id, from) == Some(i),
    decreases i - from,
{
    if from < i {
        assert(keys[from].id@ != id);
        law_switch_turns_its_key_around(keys, id, from + 1, i);
    }
}

} // verus!
