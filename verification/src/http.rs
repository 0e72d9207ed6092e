//! Status codes, proxies and the name under which requests are sent.

use crate::number;
use crate::text;
use crate::url_text;
use vstd::prelude::*;

verus! {

/// The reason phrase of a status code, where it has a canonical one.
pub uninterp spec fn reason_phrase(code: u16) -> Option<Seq<char>>;

/// `http::StatusCode::canonical_reason`, by way of `reqwest::StatusCode`: the
/// registered phrase of a status code, which depends on the code alone. The
/// code is one that `StatusCode::from_u16` takes.
#[verifier::external_body]
fn canonical_reason(code: u16) -> (r: Option<String>)
    requires
        100 <= code < 1000,
    ensures
        text::opt_view(r) == reason_phrase(code),
{
    let status = reqwest::StatusCode::from_u16(code).ok();
    status.and_then(|s| s.canonical_reason()).map(|s| s.to_string())
}

/// Whether a status code says that the request succeeded.
pub open spec fn is_success(code: u16) -> bool {
    200 <= code < 300
}

/// How a status code is written in messages.
pub open spec fn status_text(code: u16) -> Seq<char> {
    number::nat_text(code as nat) + " "@ + match reason_phrase(code) {
        Some(reason) => reason,
        None => "<unknown status code>"@,
    }
}

/// How a status code is written in messages.
pub fn status_line(code: u16) -> (r: String)
    requires
        100 <= code < 1000,
    ensures
        r@ == status_text(code),
{
    let digits: String = number::u64_text(code as u64);
    match canonical_reason(code) {
        Some(reason) => text::concat3(digits.as_str(), " ", reason.as_str()),
        None => text::concat3(digits.as_str(), " ", "<unknown status code>"),
    }
}

/// The reason phrase of a number that may be a status code: nothing where it is
/// none or has no phrase.
pub open spec fn reason_of(status: int) -> Seq<char> {
    if 100 <= status < 1000 && reason_phrase(status as u16) is Some {
        reason_phrase(status as u16)->0
    } else {
        Seq::empty()
    }
}

/// The reason phrase of a number that may be a status code.
pub fn reason_text(status: i64) -> (r: String)
    ensures
        r@ == reason_of(status as int),
{
    if 100 <= status && status < 1000 {
        match canonical_reason(status as u16) {
            Some(reason) => reason,
            None => String::new(),
        }
    } else {
        String::new()
    }
}

/// The version of the package.
pub const PACKAGE_VERSION: &'static str = "0.1.0";

/// The version of a build of which no release is made.
pub const DEV_VERSION: &'static str = "dev-build";

/// The version of a build, what was injected into it being known: without the
/// space around it, and `dev-build` where it is blank.
pub open spec fn version_of(injected: Seq<char>) -> Seq<char> {
    if text::trimmed(injected).len() == 0 {
        DEV_VERSION@
    } else {
        text::trimmed(injected)
    }
}

/// The version that a build shows, what was injected into it being known.
pub fn display_version(injected: &str) -> (r: String)
    ensures
        r@ == version_of(injected@),
{
    let given: String = text::trim(injected);
    if text::is_empty(given.as_str()) {
        DEV_VERSION.to_string()
    } else {
        given
    }
}

/// The name under which a build sends requests, what was injected into it being
/// known.
pub fn user_agent(injected: &str) -> (r: String)
    ensures
        r@ == "codex-switch/"@ + version_of(injected@),
{
    text::concat("codex-switch/", display_version(injected).as_str())
}

/// Whether a text is the URL of a proxy.
pub uninterp spec fn is_proxy_url(s: Seq<char>) -> bool;

/// `reqwest::Proxy::all`: whether the text is taken as the URL of a proxy,
/// which depends on the text alone. The length keeps the URL's offsets within
/// 32 bits.
#[verifier::external_body]
fn proxy_from_url(proxy_url: &str) -> (r: bool)
    requires
        proxy_url@.len() <= url_text::LONGEST_URL,
    ensures
        r == is_proxy_url(proxy_url@),
{
    reqwest::Proxy::all(proxy_url).is_ok()
}

/// Whether a proxy setting can be used: an empty one means no proxy.
pub open spec fn proxy_problem(proxy_url: Seq<char>) -> Option<Seq<char>> {
    let url = text::trimmed(proxy_url);
    if url.len() == 0 || is_proxy_url(url) {
        None
    } else {
        Some("invalid upstream proxy URL: "@ + url)
    }
}

/// Whether a proxy setting can be used, or what is wrong with it.
pub fn validate_proxy_url(proxy_url: &str) -> (r: Result<(), String>)
    requires
        proxy_url@.len() <= url_text::LONGEST_URL,
    ensures
        match r {
            Ok(_) => proxy_problem(proxy_url@) is None,
            Err(message) => proxy_problem(proxy_url@) == Some(message@),
        },
{
    let url: String = text::trim(proxy_url);
    proof {
        text::lemma_trimmed_length(proxy_url@);
    }
    if text::is_empty(url.as_str()) || proxy_from_url(url.as_str()) {
        Ok(())
    } else {
        Err(text::concat("invalid upstream proxy URL: ", url.as_str()))
    }
}

/// A blank setting can be used, and the space around a setting changes nothing
/// of what is said of it.
pub proof fn law_space_around_a_proxy_says_nothing(proxy_url: Seq<char>)
    ensures
        text::trimmed(proxy_url).len() == 0 ==> proxy_problem(proxy_url) is None,
        proxy_problem(text::trimmed(proxy_url)) == proxy_problem(proxy_url),
{
    text::law_trim_is_settled(proxy_url);
}

/// The proxy that a client goes through: the setting without the space around
/// it, where it is not blank.
pub fn effective_proxy(proxy_url: &Option<String>) -> (r: Option<String>)
    ensures
        text::opt_view(r) == match *proxy_url {
            Some(url) => text::trimmed_non_empty(url@),
            None => None,
        },
{
    match proxy_url {
        Some(url) => text::trimmed_string(url.as_str()),
        None => None,
    }
}

/// A status code says success from 200 to 299 and nowhere else.
pub proof fn law_success_is_two_hundred_something(code: u16)
    ensures
        is_success(code) <==> code / 100 == 2,
{
}

/// A setting that is not blank can be used exactly where it is the URL of a
/// proxy; a message names it.
pub proof fn law_proxy_is_refused_by_its_name(proxy_url: Seq<char>)
    ensures
        text::trimmed(proxy_url).len() > 0 ==> (proxy_problem(proxy_url) is None <==> is_proxy_url(
            text::trimmed(proxy_url),
        )),
        proxy_problem(proxy_url) matches Some(message) ==> message
            == "invalid upstream proxy URL: "@ + text::trimmed(proxy_url),
{
}

/// An injected version is shown without the space around it; a blank one is
/// `dev-build`. No build goes without a version.
pub proof fn law_blank_version_is_a_dev_build(injected: Seq<char>)
    ensures
        text::trimmed(injected).len() == 0 ==> version_of(injected) == "dev-build"@,
        text::trimmed(injected).len() > 0 ==> version_of(injected) == text::trimmed(injected),
        version_of(injected).len() > 0,
{
    reveal_strlit("dev-build");
}

/// A status is written with its number, a space and its phrase, where it has
/// one; what is no status has no phrase.
pub proof fn law_status_is_written_with_its_phrase(code: u16, phrase: Seq<char>)
    ensures
        reason_phrase(code) == Some(phrase) ==> status_text(code) == number::nat_text(code as nat)
            + " "@ + phrase,
        reason_phrase(code) == Some(phrase) && 100 <= code <= 999 ==> reason_of(code as int)
            == phrase,
        code < 100 || code > 999 ==> reason_of(code as int).len() == 0,
        reason_phrase(code) is None ==> reason_of(code as int).len() == 0,
{
}

} // verus!
