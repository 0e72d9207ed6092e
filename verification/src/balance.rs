//! The balance of an upstream: which provider to ask and where, with which
//! credentials, and what the answers say.

use crate::clock;
use crate::double;
use crate::float64::Double;
use crate::http;
use crate::json;
use crate::json::{Json, JsonView};
use crate::models;
use crate::models::{BalanceProvider, BalanceSnapshot, UpstreamKind};
use crate::text;
use crate::url_text;
use vstd::prelude::*;
use vstd::utf8;

verus! {

/// The quota units of a new-api panel that make a dollar.
pub const NEWAPI_QUOTA_PER_USD: u64 = 500_000;

/// The provider that a base URL in lower case belongs to.
pub open spec fn provider_of(url: Seq<char>) -> Option<BalanceProvider> {
    if text::occurs_in(url, "api.deepseek.com"@) {
        Some(BalanceProvider::DeepSeek)
    } else if text::occurs_in(url, "api.stepfun.ai"@) || text::occurs_in(url, "api.stepfun.com"@) {
        Some(BalanceProvider::StepFun)
    } else if text::occurs_in(url, "api.siliconflow.cn"@) {
        Some(BalanceProvider::SiliconFlowCn)
    } else if text::occurs_in(url, "api.siliconflow.com"@) {
        Some(BalanceProvider::SiliconFlowGlobal)
    } else if text::occurs_in(url, "openrouter.ai"@) {
        Some(BalanceProvider::OpenRouter)
    } else if text::occurs_in(url, "api.novita.ai"@) {
        Some(BalanceProvider::Novita)
    } else if text::occurs_in(url, "sub2api"@) {
        Some(BalanceProvider::Sub2Api)
    } else if text::occurs_in(url, "new-api"@) || text::occurs_in(url, "newapi"@)
        || text::occurs_in(url, "one-api"@) {
        Some(BalanceProvider::NewApi)
    } else {
        None
    }
}

/// The provider that a base URL in lower case belongs to.
pub fn provider_of_lowercase(url: &str) -> (r: Option<BalanceProvider>)
    ensures
        r == provider_of(url@),
{
    if text::contains(url, "api.deepseek.com") {
        Some(BalanceProvider::DeepSeek)
    } else if text::contains(url, "api.stepfun.ai") || text::contains(url, "api.stepfun.com") {
        Some(BalanceProvider::StepFun)
    } else if text::contains(url, "api.siliconflow.cn") {
        Some(BalanceProvider::SiliconFlowCn)
    } else if text::contains(url, "api.siliconflow.com") {
        Some(BalanceProvider::SiliconFlowGlobal)
    } else if text::contains(url, "openrouter.ai") {
        Some(BalanceProvider::OpenRouter)
    } else if text::contains(url, "api.novita.ai") {
        Some(BalanceProvider::Novita)
    } else if text::contains(url, "sub2api") {
        Some(BalanceProvider::Sub2Api)
    } else if text::contains(url, "new-api") || text::contains(url, "newapi") || text::contains(
        url,
        "one-api",
    ) {
        Some(BalanceProvider::NewApi)
    } else {
        None
    }
}

/// The provider that a base URL belongs to.
pub fn detect_provider(base_url: &str) -> (r: Option<BalanceProvider>)
    ensures
        r == provider_of(text::lowercase_of(base_url@)),
{
    let url: String = text::lowercase(base_url);
    provider_of_lowercase(url.as_str())
}

/// What an upstream's balance is asked for with.
#[derive(Debug)]
pub struct BalanceCredentials {
    pub api_key: String,
    pub newapi_user_key: Option<String>,
    pub newapi_user_id: Option<String>,
}

/// How a panel that serves many models is authorised.
#[derive(Debug)]
pub enum CommonBalanceAuth {
    ApiKey { api_key: String },
    NewApi { user_key: String, user_id: String },
    Auto {
        api_key: String,
        newapi_user_key: Option<String>,
        newapi_user_id: Option<String>,
    },
}

/// The headers of a balance request.
#[derive(Debug)]
pub struct CommonBalanceHeaders {
    pub bearer: String,
    pub newapi_user_id: Option<String>,
}

/// Which kind of panel an address belongs to.
#[derive(Debug, Clone, Copy, PartialEq, Eq, Structural)]
pub enum CommonBalanceUrlKind {
    Generic,
    NewApi,
}

/// An address at which a balance may be had.
#[derive(Debug)]
pub struct CommonBalanceUrl {
    pub url: String,
    pub kind: CommonBalanceUrlKind,
}

impl BalanceCredentials {
    /// How a provider's panel is authorised, or which credential is missing.
    pub fn common_auth(&self, provider: BalanceProvider) -> (r: Result<CommonBalanceAuth, String>)
        ensures
            match provider {
                BalanceProvider::NewApi => if self.newapi_user_key is None {
                    r matches Err(e) && e@ == "missing new-api user key"@
                } else if self.newapi_user_id is None {
                    r matches Err(e) && e@ == "missing new-api user id"@
                } else {
                    r == Ok::<CommonBalanceAuth, String>(
                        CommonBalanceAuth::NewApi {
                            user_key: self.newapi_user_key->0,
                            user_id: self.newapi_user_id->0,
                        },
                    )
                },
                BalanceProvider::Auto => r == Ok::<CommonBalanceAuth, String>(
                    CommonBalanceAuth::Auto {
                        api_key: self.api_key,
                        newapi_user_key: self.newapi_user_key,
                        newapi_user_id: self.newapi_user_id,
                    },
                ),
                _ => r == Ok::<CommonBalanceAuth, String>(
                    CommonBalanceAuth::ApiKey { api_key: self.api_key },
                ),
            },
            r is Err <==> provider == BalanceProvider::NewApi && (self.newapi_user_key is None
                || self.newapi_user_id is None),
            r matches Ok(CommonBalanceAuth::NewApi { user_key, user_id }) ==> provider
                == BalanceProvider::NewApi && self.newapi_user_key == Some(user_key)
                && self.newapi_user_id == Some(user_id),
            r matches Ok(CommonBalanceAuth::ApiKey { api_key }) ==> api_key == self.api_key,
    {
        match provider {
            BalanceProvider::NewApi => {
                match (&self.newapi_user_key, &self.newapi_user_id) {
                    (None, _) => Err("missing new-api user key".to_string()),
                    (Some(_), None) => Err("missing new-api user id".to_string()),
                    (Some(user_key), Some(user_id)) => Ok(
                        CommonBalanceAuth::NewApi {
                            user_key: user_key.clone(),
                            user_id: user_id.clone(),
                        },
                    ),
                }
            },
            BalanceProvider::Auto => Ok(
                CommonBalanceAuth::Auto {
                    api_key: self.api_key.clone(),
                    newapi_user_key: models::clone_opt(&self.newapi_user_key),
                    newapi_user_id: models::clone_opt(&self.newapi_user_id),
                },
            ),
            _ => Ok(CommonBalanceAuth::ApiKey { api_key: self.api_key.clone() }),
        }
    }
}

impl CommonBalanceAuth {
    /// The headers that go to an address, where the credentials are there.
    pub open spec fn headers(self, kind: CommonBalanceUrlKind) -> Option<CommonBalanceHeaders> {
        match (self, kind) {
            (CommonBalanceAuth::ApiKey { api_key }, CommonBalanceUrlKind::Generic) => Some(
                CommonBalanceHeaders { bearer: api_key, newapi_user_id: None },
            ),
            (CommonBalanceAuth::NewApi { user_key, user_id }, CommonBalanceUrlKind::NewApi) => Some(
                CommonBalanceHeaders { bearer: user_key, newapi_user_id: Some(user_id) },
            ),
            (CommonBalanceAuth::Auto { api_key, .. }, CommonBalanceUrlKind::Generic) => Some(
                CommonBalanceHeaders { bearer: api_key, newapi_user_id: None },
            ),
            (
                CommonBalanceAuth::Auto {
                    newapi_user_key: Some(user_key),
                    newapi_user_id: Some(user_id),
                    ..
                },
                CommonBalanceUrlKind::NewApi,
            ) => Some(CommonBalanceHeaders { bearer: user_key, newapi_user_id: Some(user_id) }),
            _ => None,
        }
    }

    /// The headers that go to an address, where the credentials are there.
    pub fn headers_for(&self, kind: CommonBalanceUrlKind) -> (r: Option<CommonBalanceHeaders>)
        ensures
            r == self.headers(kind),
    {
        match (self, kind) {
            (CommonBalanceAuth::ApiKey { api_key }, CommonBalanceUrlKind::Generic) => Some(
                CommonBalanceHeaders { bearer: api_key.clone(), newapi_user_id: None },
            ),
            (CommonBalanceAuth::NewApi { user_key, user_id }, CommonBalanceUrlKind::NewApi) => Some(
                CommonBalanceHeaders {
                    bearer: user_key.clone(),
                    newapi_user_id: Some(user_id.clone()),
                },
            ),
            (CommonBalanceAuth::Auto { api_key, .. }, CommonBalanceUrlKind::Generic) => Some(
                CommonBalanceHeaders { bearer: api_key.clone(), newapi_user_id: None },
            ),
            (
                CommonBalanceAuth::Auto {
                    newapi_user_key: Some(user_key),
                    newapi_user_id: Some(user_id),
                    ..
                },
                CommonBalanceUrlKind::NewApi,
            ) => Some(
                CommonBalanceHeaders {
                    bearer: user_key.clone(),
                    newapi_user_id: Some(user_id.clone()),
                },
            ),
            _ => None,
        }
    }
}

/// An address as text with its kind.
pub open spec fn entry(url: Seq<char>, kind: CommonBalanceUrlKind) -> (
    Seq<char>,
    CommonBalanceUrlKind,
) {
    (url, kind)
}

/// Addresses as text with their kinds.
pub open spec fn entries(urls: Seq<CommonBalanceUrl>) -> Seq<(Seq<char>, CommonBalanceUrlKind)> {
    Seq::new(urls.len(), |i: int| (urls[i].url@, urls[i].kind))
}

/// Whether an address is in a list.
pub open spec fn lists(urls: Seq<(Seq<char>, CommonBalanceUrlKind)>, url: Seq<char>) -> bool {
    exists|i: int| 0 <= i < urls.len() && (#[trigger] urls[i]).0 == url
}

/// The list with an address added, unless there is none or it is listed
/// already.
pub open spec fn with_unique(
    urls: Seq<(Seq<char>, CommonBalanceUrlKind)>,
    url: Option<Seq<char>>,
    kind: CommonBalanceUrlKind,
) -> Seq<(Seq<char>, CommonBalanceUrlKind)> {
    match url {
        Some(url) => if lists(urls, url) {
            urls
        } else {
            urls.push((url, kind))
        },
        None => urls,
    }
}

/// The URL one step below the base URL's path.
pub open spec fn below_path(base_url: Seq<char>, path: Seq<char>) -> Option<Seq<char>> {
    match url_text::url_path(base_url) {
        Some(base_path) => {
            let joined = text::without_trailing(base_path, '/') + seq!['/']
                + text::without_leading(path, '/');
            url_text::url_at_path(base_url, joined)
        },
        None => None,
    }
}

/// The addresses at which the balance of a panel may be had, in the order in
/// which they are tried.
pub open spec fn panel_urls(base_url: Seq<char>, provider: BalanceProvider) -> Seq<
    (Seq<char>, CommonBalanceUrlKind),
> {
    let none = Seq::<(Seq<char>, CommonBalanceUrlKind)>::empty();
    let usage = with_unique(
        with_unique(none, below_path(base_url, "usage"@), CommonBalanceUrlKind::Generic),
        url_text::url_at_path(base_url, "/v1/usage"@),
        CommonBalanceUrlKind::Generic,
    );
    let own = url_text::url_at_path(base_url, "/api/user/self"@);
    match provider {
        BalanceProvider::Sub2Api => usage,
        BalanceProvider::NewApi => with_unique(none, own, CommonBalanceUrlKind::NewApi),
        BalanceProvider::Auto => with_unique(usage, own, CommonBalanceUrlKind::NewApi),
        _ => none,
    }
}

/// Whether no address is listed twice.
pub open spec fn all_different(urls: Seq<(Seq<char>, CommonBalanceUrlKind)>) -> bool {
    forall|i: int, j: int|
        0 <= i < j < urls.len() ==> (#[trigger] urls[i]).0 != (#[trigger] urls[j]).0
}

/// Adding an address keeps the addresses different.
proof fn lemma_with_unique(
    urls: Seq<(Seq<char>, CommonBalanceUrlKind)>,
    url: Option<Seq<char>>,
    kind: CommonBalanceUrlKind,
)
    requires
        all_different(urls),
    ensures
        all_different(with_unique(urls, url, kind)),
{
}

/// No address is asked twice for a balance.
pub proof fn law_panel_urls_differ(base_url: Seq<char>, provider: BalanceProvider)
    ensures
        all_different(panel_urls(base_url, provider)),
{
    let none = Seq::<(Seq<char>, CommonBalanceUrlKind)>::empty();
    let a = with_unique(none, below_path(base_url, "usage"@), CommonBalanceUrlKind::Generic);
    lemma_with_unique(none, below_path(base_url, "usage"@), CommonBalanceUrlKind::Generic);
    let usage = url_text::url_at_path(base_url, "/v1/usage"@);
    let b = with_unique(a, usage, CommonBalanceUrlKind::Generic);
    lemma_with_unique(a, usage, CommonBalanceUrlKind::Generic);
    let own = url_text::url_at_path(base_url, "/api/user/self"@);
    lemma_with_unique(b, own, CommonBalanceUrlKind::NewApi);
    lemma_with_unique(none, own, CommonBalanceUrlKind::NewApi);
}

/// Adds an address, unless there is none or it is listed already.
#[verifier::loop_isolation(false)]
pub fn push_unique_url(
    urls: &mut Vec<CommonBalanceUrl>,
    url: Option<String>,
    kind: CommonBalanceUrlKind,
)
    ensures
        entries(final(urls)@) == with_unique(entries(old(urls)@), text::opt_view(url), kind),
{
    let url: String = match url {
        Some(url) => url,
        None => {
            return;
        },
    };
    let ghost list = entries(urls@);
    let mut i: usize = 0;
    while i < urls.len()
        invariant
            i <= urls@.len(),
            urls@ == old(urls)@,
            list == entries(urls@),
            forall|j: int| 0 <= j < i ==> (#[trigger] list[j]).0 != url@,
        decreases urls@.len() - i,
    {
        assert(list[i as int].0 == urls@[i as int].url@);
        if text::same(urls[i].url.as_str(), url.as_str()) {
            assert(lists(list, url@));
            return;
        }
        i = i + 1;
    }
    urls.push(CommonBalanceUrl { url, kind });
    assert(entries(urls@) =~= list.push((url@, kind)));
}

proof fn lemma_leading_length(s: Seq<char>, c: char)
    ensures
        text::without_leading(s, c).len() <= s.len(),
    decreases s.len(),
{
    if s.len() > 0 && s[0] == c {
        lemma_leading_length(s.skip(1), c);
    }
}

/// The URL one step below the base URL's path.
pub fn append_path_url(base_url: &str, path: &str) -> (r: Option<String>)
    requires
        base_url@.len() <= url_text::LONGEST_URL,
        base_url@.len() + path@.len() <= url_text::LONGEST_WITH_PATH,
    ensures
        text::opt_view(r) == below_path(base_url@, path@),
{
    let base_path: String = match url_text::path_of(base_url) {
        Some(base_path) => base_path,
        None => {
            return None;
        },
    };
    let front: String = text::strip_trailing(base_path.as_str(), '/');
    let back: String = text::strip_leading(path, '/');
    proof {
        reveal_strlit("/");
        assert("/"@ =~= seq!['/']);
    }
    let joined: String = text::concat3(front.as_str(), "/", back.as_str());
    proof {
        url_text::lemma_shorter_path_bytes(base_path@, '/');
        url_text::lemma_path_bytes(front@, "/"@);
        url_text::lemma_path_bytes(front@ + "/"@, back@);
        lemma_leading_length(path@, '/');
    }
    url_text::at_path(base_url, joined.as_str())
}

/// The URL with another path from the root.
pub fn root_path_url(base_url: &str, path: &str) -> (r: Option<String>)
    requires
        base_url@.len() <= url_text::LONGEST_URL,
        base_url@.len() + path@.len() <= url_text::LONGEST_WITH_PATH,
    ensures
        text::opt_view(r) == url_text::url_at_path(base_url@, path@),
{
    proof {
        url_text::lemma_path_bytes(Seq::empty(), path@);
    }
    url_text::at_path(base_url, path)
}

/// The addresses at which the balance of a panel may be had.
pub fn common_balance_urls(base_url: &str, provider: BalanceProvider) -> (r: Vec<CommonBalanceUrl>)
    requires
        base_url@.len() <= url_text::LONGEST_URL,
    ensures
        entries(r@) == panel_urls(base_url@, provider),
{
    let mut urls: Vec<CommonBalanceUrl> = Vec::new();
    proof {
        reveal_strlit("usage");
        reveal_strlit("/v1/usage");
        reveal_strlit("/api/user/self");
        assert(entries(urls@) =~= Seq::<(Seq<char>, CommonBalanceUrlKind)>::empty());
    }
    match provider {
        BalanceProvider::Sub2Api | BalanceProvider::Auto => {
            push_unique_url(
                &mut urls,
                append_path_url(base_url, "usage"),
                CommonBalanceUrlKind::Generic,
            );
            push_unique_url(
                &mut urls,
                root_path_url(base_url, "/v1/usage"),
                CommonBalanceUrlKind::Generic,
            );
        },
        _ => {},
    }
    match provider {
        BalanceProvider::NewApi | BalanceProvider::Auto => {
            push_unique_url(
                &mut urls,
                root_path_url(base_url, "/api/user/self"),
                CommonBalanceUrlKind::NewApi,
            );
        },
        _ => {},
    }
    urls
}

/// Whether another address is tried after an answer with this status.
pub open spec fn tries_next(status: u16) -> bool {
    status == 404 || status == 405 || status == 400 || status == 401 || status == 403
}

/// Whether another address is tried after an answer with this status.
pub fn should_try_next_common_status(status: u16) -> (r: bool)
    ensures
        r == tries_next(status),
{
    status == 404 || status == 405 || status == 400 || status == 401 || status == 403
}

/// The number that a value holds: a number, or text that writes one.
pub open spec fn number_of(v: JsonView) -> Option<Double> {
    match v {
        JsonView::Number { bits: Some(bits), .. } => Some(double::of_bits(bits)),
        JsonView::Text(s) => double::of_text(s),
        _ => None,
    }
}

/// The number in a field.
pub open spec fn number_in(v: JsonView, key: Seq<char>) -> Option<Double> {
    match json::field(v, key) {
        Some(found) => number_of(found),
        None => None,
    }
}

/// The number in the first of some fields that holds one.
pub open spec fn first_number(v: JsonView, keys: Seq<&str>) -> Option<Double>
    decreases keys.len(),
{
    if keys.len() == 0 {
        None
    } else {
        match number_in(v, keys[0]@) {
            Some(n) => Some(n),
            None => first_number(v, keys.skip(1)),
        }
    }
}

/// The text in the first of some fields that holds one.
pub open spec fn first_string(v: JsonView, keys: Seq<&str>) -> Option<Seq<char>>
    decreases keys.len(),
{
    if keys.len() == 0 {
        None
    } else {
        match json::string_field(v, keys[0]@) {
            Some(s) => Some(s),
            None => first_string(v, keys.skip(1)),
        }
    }
}

/// The truth value in a field.
pub open spec fn bool_in(v: JsonView, key: Seq<char>) -> Option<bool> {
    match json::field(v, key) {
        Some(JsonView::Bool(b)) => Some(b),
        _ => None,
    }
}

/// The truth value in the first of some fields that holds one.
pub open spec fn first_bool(v: JsonView, keys: Seq<&str>) -> Option<bool>
    decreases keys.len(),
{
    if keys.len() == 0 {
        None
    } else {
        match bool_in(v, keys[0]@) {
            Some(b) => Some(b),
            None => first_bool(v, keys.skip(1)),
        }
    }
}

/// The number in a field.
pub fn parse_number_field(obj: &Json, key: &str) -> (r: Option<Double>)
    ensures
        r == number_in(obj.view(), key@),
        r matches Some(x) ==> x.wf(),
{
    match obj.get(key) {
        Some(Json::Number(n)) => match n.bits {
            Some(bits) => Some(Double::from_bits(bits)),
            None => None,
        },
        Some(Json::Text(s)) => Double::from_text(s.as_str()),
        _ => None,
    }
}

/// The number in the first of some fields that holds one.
pub fn number_any(obj: &Json, keys: &Vec<&str>) -> (r: Option<Double>)
    ensures
        r == first_number(obj.view(), keys@),
        r matches Some(x) ==> x.wf(),
{
    let mut i: usize = 0;
    assert(keys@.skip(0) =~= keys@);
    while i < keys.len()
        invariant
            i <= keys@.len(),
            first_number(obj.view(), keys@) == first_number(obj.view(), keys@.skip(i as int)),
        decreases keys@.len() - i,
    {
        assert(keys@.skip(i as int).skip(1) =~= keys@.skip(i + 1));
        let found: Option<Double> = parse_number_field(obj, keys[i]);
        if found.is_some() {
            return found;
        }
        i = i + 1;
    }
    None
}

/// The text in the first of some fields that holds one.
pub fn string_any(obj: &Json, keys: &Vec<&str>) -> (r: Option<String>)
    ensures
        text::opt_view(r) == first_string(obj.view(), keys@),
{
    let mut i: usize = 0;
    assert(keys@.skip(0) =~= keys@);
    while i < keys.len()
        invariant
            i <= keys@.len(),
            first_string(obj.view(), keys@) == first_string(obj.view(), keys@.skip(i as int)),
        decreases keys@.len() - i,
    {
        assert(keys@.skip(i as int).skip(1) =~= keys@.skip(i + 1));
        if let Some(s) = obj.get_str(keys[i]) {
            return Some(s.clone());
        }
        i = i + 1;
    }
    None
}

/// The truth value in the first of some fields that holds one.
pub fn bool_any(obj: &Json, keys: &Vec<&str>) -> (r: Option<bool>)
    ensures
        r == first_bool(obj.view(), keys@),
{
    let mut i: usize = 0;
    assert(keys@.skip(0) =~= keys@);
    while i < keys.len()
        invariant
            i <= keys@.len(),
            first_bool(obj.view(), keys@) == first_bool(obj.view(), keys@.skip(i as int)),
        decreases keys@.len() - i,
    {
        assert(keys@.skip(i as int).skip(1) =~= keys@.skip(i + 1));
        if let Some(Json::Bool(b)) = obj.get(keys[i]) {
            return Some(*b);
        }
        i = i + 1;
    }
    None
}

/// What an answer says of a balance.
pub struct BalanceView {
    pub remaining: Option<Double>,
    pub total: Option<Double>,
    pub used: Option<Double>,
    pub unit: Option<Seq<char>>,
    pub is_valid: bool,
    pub message: Option<Seq<char>>,
}

/// Nothing known of a balance.
pub open spec fn unknown() -> BalanceView {
    BalanceView {
        remaining: None,
        total: None,
        used: None,
        unit: None,
        is_valid: false,
        message: None,
    }
}

/// Whether a snapshot records, for an upstream and a provider at a time, what
/// an answer says.
pub open spec fn records(
    s: &BalanceSnapshot,
    upstream_id: Seq<char>,
    provider: BalanceProvider,
    at: i64,
    v: BalanceView,
) -> bool {
    &&& s.upstream_id@ == upstream_id
    &&& s.provider@ == provider.name()
    &&& s.fetched_at == at
    &&& s.remaining == v.remaining
    &&& s.total == v.total
    &&& s.used == v.used
    &&& text::opt_view(s.unit) == v.unit
    &&& s.is_valid == v.is_valid
    &&& text::opt_view(s.message) == v.message
    &&& (s.remaining matches Some(x) ==> x.wf())
    &&& (s.total matches Some(x) ==> x.wf())
    &&& (s.used matches Some(x) ==> x.wf())
}

/// The first of two where it is there, the second otherwise.
pub open spec fn first_of<T>(a: Option<T>, b: Option<T>) -> Option<T> {
    match a {
        Some(x) => Some(x),
        None => b,
    }
}

/// The value, or another where it is not there.
pub open spec fn or_else<T>(a: Option<T>, b: T) -> T {
    match a {
        Some(x) => x,
        None => b,
    }
}

/// The field of that name, or the value itself where it has none.
pub open spec fn data_of(body: JsonView) -> JsonView {
    or_else(json::field(body, "data"@), body)
}

/// Whether an amount is above zero.
pub open spec fn positive(x: Double) -> bool {
    double::below(double::zero(false), x)
}

/// What is left of a total, and no less than nothing.
pub open spec fn left_of(total: Option<Double>, used: Option<Double>) -> Option<Double> {
    match (total, used) {
        (Some(total), Some(used)) => Some(
            double::at_least_zero(double::difference_of(total, used)),
        ),
        _ => None,
    }
}

/// The message in a value.
pub open spec fn message_in(v: JsonView) -> Option<Seq<char>> {
    first_string(v, seq!["message", "error", "invalid_message"])
}

/// The unit in a value.
pub open spec fn unit_in(v: JsonView) -> Option<Seq<char>> {
    first_string(v, seq!["unit", "currency"])
}

/// The validity in a value.
pub open spec fn validity_in(v: JsonView) -> Option<bool> {
    first_bool(v, seq!["isValid", "is_valid", "is_active"])
}

/// The balance that an object of quotas states.
pub open spec fn quota_balance(data: JsonView, quota: Option<JsonView>) -> Option<BalanceView> {
    match quota {
        Some(quota) => {
            let used = first_number(quota, seq!["used", "usage"]);
            let total = first_number(quota, seq!["limit", "total"]);
            match first_of(
                first_number(quota, seq!["remaining", "remain", "left"]),
                left_of(total, used),
            ) {
                Some(remaining) => Some(
                    BalanceView {
                        remaining: Some(remaining),
                        total,
                        used,
                        unit: Some(or_else(first_of(unit_in(quota), unit_in(data)), "USD"@)),
                        is_valid: or_else(validity_in(data), positive(remaining)),
                        message: message_in(data),
                    },
                ),
                None => None,
            }
        },
        None => None,
    }
}

/// Whether a value counts in the quota units of a new-api panel.
pub open spec fn counts_quota(data: JsonView) -> bool {
    ||| json::field(data, "remain_quota"@) is Some
    ||| json::field(data, "remaining_quota"@) is Some
    ||| json::field(data, "used_quota"@) is Some
    ||| json::field(data, "quota_used"@) is Some
}

/// Quota units of a new-api panel in dollars.
pub open spec fn quota_in_usd(units: Double) -> Double {
    double::divided_by(units, NEWAPI_QUOTA_PER_USD as nat)
}

/// An optional amount of quota units in dollars.
pub open spec fn optional_usd(units: Option<Double>) -> Option<Double> {
    match units {
        Some(units) => Some(quota_in_usd(units)),
        None => None,
    }
}

/// The balance that a new-api panel states in quota units.
pub open spec fn newapi_balance(
    provider: BalanceProvider,
    data: JsonView,
    body: JsonView,
) -> Option<BalanceView> {
    let plain = if counts_quota(data) || provider == BalanceProvider::NewApi {
        number_in(data, "quota"@)
    } else {
        None
    };
    match first_of(first_number(data, seq!["remain_quota", "remaining_quota"]), plain) {
        Some(remaining_units) => {
            let used_units = first_number(data, seq!["used_quota", "quota_used"]);
            let total_units = first_of(
                first_number(data, seq!["total_quota", "quota_limit", "limit_quota"]),
                match used_units {
                    Some(used) => Some(double::sum_of(remaining_units, used)),
                    None => None,
                },
            );
            let remaining = quota_in_usd(remaining_units);
            Some(
                BalanceView {
                    remaining: Some(remaining),
                    total: optional_usd(total_units),
                    used: optional_usd(used_units),
                    unit: Some(or_else(unit_in(data), "USD"@)),
                    is_valid: or_else(
                        first_of(
                            validity_in(data),
                            first_bool(body, seq!["isValid", "is_valid", "is_active", "success"]),
                        ),
                        positive(remaining),
                    ),
                    message: first_of(message_in(data), message_in(body)),
                },
            )
        },
        None => None,
    }
}

/// The object of quotas in an answer.
pub open spec fn quota_object(body: JsonView) -> Option<JsonView> {
    match first_of(json::field(data_of(body), "quota"@), json::field(body, "quota"@)) {
        Some(JsonView::Object(fields)) => Some(JsonView::Object(fields)),
        _ => None,
    }
}

/// The number in the first of some fields of the object of quotas.
pub open spec fn quota_number(quota: Option<JsonView>, keys: Seq<&str>) -> Option<Double> {
    match quota {
        Some(quota) => first_number(quota, keys),
        None => None,
    }
}

/// The balance that an answer states in plain fields.
pub open spec fn plain_balance(body: JsonView) -> Option<BalanceView> {
    let data = data_of(body);
    let quota = quota_object(body);
    let stated = first_of(
        first_of(
            quota_number(quota, seq!["remaining", "remain", "left"]),
            first_number(
                data,
                seq![
                    "remaining",
                    "remain",
                    "remain_quota",
                    "left_quota",
                    "total_available",
                    "available",
                ],
            ),
        ),
        first_number(data, seq!["balance", "available_balance", "availableBalance"]),
    );
    let used = first_of(
        quota_number(quota, seq!["used", "usage"]),
        first_number(data, seq!["used", "used_quota", "quota_used", "total_usage", "total_used"]),
    );
    let total = first_of(
        quota_number(quota, seq!["limit", "total"]),
        first_number(
            data,
            seq!["limit", "total", "total_quota", "total_credits", "total_granted"],
        ),
    );
    match first_of(stated, left_of(total, used)) {
        Some(remaining) => Some(
            BalanceView {
                remaining: Some(remaining),
                total,
                used,
                unit: Some(
                    or_else(
                        first_of(
                            unit_in(data),
                            match quota {
                                Some(quota) => unit_in(quota),
                                None => None,
                            },
                        ),
                        "USD"@,
                    ),
                ),
                is_valid: or_else(
                    first_of(validity_in(data), validity_in(body)),
                    positive(remaining),
                ),
                message: first_of(message_in(data), message_in(body)),
            },
        ),
        None => None,
    }
}

/// The balance that a panel's answer states, in whichever way.
pub open spec fn common_balance(provider: BalanceProvider, body: JsonView) -> Option<BalanceView> {
    let data = data_of(body);
    first_of(
        quota_balance(data, quota_object(body)),
        first_of(
            if provider == BalanceProvider::Auto || provider == BalanceProvider::NewApi {
                newapi_balance(provider, data, body)
            } else {
                None
            },
            plain_balance(body),
        ),
    )
}

/// Whether an answer says outright that there is no balance to be had.
pub open spec fn denies(body: JsonView) -> bool {
    let keys = seq!["success", "isValid", "is_valid", "is_active"];
    first_bool(body, keys) == Some(false) || first_bool(data_of(body), keys) == Some(false)
}

/// Why there is no balance, where an answer says so outright.
pub open spec fn denial(body: JsonView) -> Option<Seq<char>> {
    if denies(body) {
        Some(
            or_else(
                first_of(message_in(data_of(body)), message_in(body)),
                "balance query failed"@,
            ),
        )
    } else {
        None
    }
}

/// The balance that a provider's answer states.
pub open spec fn provider_balance(
    provider: BalanceProvider,
    unit: Seq<char>,
    body: JsonView,
) -> BalanceView {
    let plain = BalanceView { unit: Some(unit), is_valid: true, ..unknown() };
    match provider {
        BalanceProvider::DeepSeek => BalanceView {
            remaining: match json::field(body, "balance_infos"@) {
                Some(JsonView::Array(items)) => if items.len() > 0 {
                    number_in(items[0], "total_balance"@)
                } else {
                    None
                },
                _ => None,
            },
            is_valid: or_else(bool_in(body, "is_available"@), true),
            ..plain
        },
        BalanceProvider::StepFun => BalanceView {
            remaining: number_in(body, "balance"@),
            ..plain
        },
        BalanceProvider::SiliconFlowCn | BalanceProvider::SiliconFlowGlobal => BalanceView {
            remaining: first_of(
                number_in(data_of(body), "totalBalance"@),
                number_in(data_of(body), "balance"@),
            ),
            ..plain
        },
        BalanceProvider::OpenRouter => {
            let total = number_in(data_of(body), "total_credits"@);
            let used = number_in(data_of(body), "total_usage"@);
            let remaining = match (total, used) {
                (Some(total), Some(used)) => Some(double::difference_of(total, used)),
                _ => None,
            };
            BalanceView {
                remaining,
                total,
                used,
                is_valid: match remaining {
                    Some(x) => positive(x),
                    None => true,
                },
                ..plain
            }
        },
        BalanceProvider::Novita => {
            let remaining = match number_in(body, "availableBalance"@) {
                Some(x) => Some(double::divided_by(x, 10_000)),
                None => None,
            };
            BalanceView {
                remaining,
                is_valid: match remaining {
                    Some(x) => positive(x),
                    None => true,
                },
                ..plain
            }
        },
        BalanceProvider::Sub2Api | BalanceProvider::NewApi => or_else(
            common_balance(provider, body),
            plain,
        ),
        _ => plain,
    }
}

/// The first of two texts where it is there, the second otherwise.
fn first_text(a: Option<String>, b: Option<String>) -> (r: Option<String>)
    ensures
        text::opt_view(r) == first_of(text::opt_view(a), text::opt_view(b)),
{
    match a {
        Some(a) => Some(a),
        None => b,
    }
}

/// The text, or another where it is not there.
fn text_or(a: Option<String>, b: &str) -> (r: String)
    ensures
        r@ == or_else(text::opt_view(a), b@),
{
    match a {
        Some(a) => a,
        None => b.to_string(),
    }
}

fn message_of(v: &Json) -> (r: Option<String>)
    ensures
        text::opt_view(r) == message_in(v.view()),
{
    string_any(v, &vec!["message", "error", "invalid_message"])
}

fn unit_of(v: &Json) -> (r: Option<String>)
    ensures
        text::opt_view(r) == unit_in(v.view()),
{
    string_any(v, &vec!["unit", "currency"])
}

fn validity_of(v: &Json) -> (r: Option<bool>)
    ensures
        r == validity_in(v.view()),
{
    bool_any(v, &vec!["isValid", "is_valid", "is_active"])
}

/// What is left of a total, and no less than nothing.
fn left(total: Option<Double>, used: Option<Double>) -> (r: Option<Double>)
    requires
        total matches Some(x) ==> x.wf(),
        used matches Some(x) ==> x.wf(),
    ensures
        r == left_of(total, used),
        r matches Some(x) ==> x.wf(),
{
    match (total, used) {
        (Some(total), Some(used)) => Some(total.minus(used).or_zero()),
        _ => None,
    }
}

fn first_amount(a: Option<Double>, b: Option<Double>) -> (r: Option<Double>)
    requires
        a matches Some(x) ==> x.wf(),
        b matches Some(x) ==> x.wf(),
    ensures
        r == first_of(a, b),
        r matches Some(x) ==> x.wf(),
{
    match a {
        Some(a) => Some(a),
        None => b,
    }
}

/// The field `data`, or the value itself where it has none.
fn data_field(body: &Json) -> (r: &Json)
    ensures
        r.view() == data_of(body.view()),
{
    match body.get("data") {
        Some(data) => data,
        None => body,
    }
}

/// The balance that an object of quotas states.
pub fn parse_quota_object_balance(
    upstream_id: &str,
    provider: BalanceProvider,
    data: &Json,
    quota: Option<&Json>,
    at: i64,
) -> (r: Option<BalanceSnapshot>)
    ensures
        match quota_balance(
            data.view(),
            match quota {
                Some(quota) => Some(quota.view()),
                None => None,
            },
        ) {
            Some(v) => r matches Some(s) && records(&s, upstream_id@, provider, at, v),
            None => r is None,
        },
{
    let quota: &Json = match quota {
        Some(quota) => quota,
        None => {
            return None;
        },
    };
    let used: Option<Double> = number_any(quota, &vec!["used", "usage"]);
    let total: Option<Double> = number_any(quota, &vec!["limit", "total"]);
    let stated: Option<Double> = number_any(quota, &vec!["remaining", "remain", "left"]);
    let remaining: Double = match first_amount(stated, left(total, used)) {
        Some(remaining) => remaining,
        None => {
            return None;
        },
    };
    let unit: String = text_or(first_text(unit_of(quota), unit_of(data)), "USD");
    let is_valid: bool = match validity_of(data) {
        Some(valid) => valid,
        None => remaining.is_positive(),
    };
    Some(
        BalanceSnapshot {
            upstream_id: upstream_id.to_string(),
            provider: provider.as_str().to_string(),
            remaining: Some(remaining),
            total,
            used,
            unit: Some(unit),
            is_valid,
            message: message_of(data),
            fetched_at: at,
        },
    )
}

/// An optional amount of quota units in dollars.
fn usd_of(units: Option<Double>) -> (r: Option<Double>)
    requires
        units matches Some(x) ==> x.wf(),
    ensures
        r == optional_usd(units),
        r matches Some(x) ==> x.wf(),
{
    match units {
        Some(units) => Some(newapi_quota_to_usd(units)),
        None => None,
    }
}

/// Quota units of a new-api panel in dollars.
pub fn newapi_quota_to_usd(value: Double) -> (r: Double)
    requires
        value.wf(),
    ensures
        r == quota_in_usd(value),
        r.wf(),
{
    value.over(NEWAPI_QUOTA_PER_USD)
}

/// The balance that a new-api panel states in quota units.
pub fn parse_newapi_quota_balance(
    upstream_id: &str,
    provider: BalanceProvider,
    data: &Json,
    body: &Json,
    at: i64,
) -> (r: Option<BalanceSnapshot>)
    ensures
        match newapi_balance(provider, data.view(), body.view()) {
            Some(v) => r matches Some(s) && records(&s, upstream_id@, provider, at, v),
            None => r is None,
        },
{
    let has_quota_shape: bool = data.get("remain_quota").is_some() || data.get(
        "remaining_quota",
    ).is_some() || data.get("used_quota").is_some() || data.get("quota_used").is_some();
    let plain: Option<Double> = if has_quota_shape || provider == BalanceProvider::NewApi {
        parse_number_field(data, "quota")
    } else {
        None
    };
    let stated: Option<Double> = number_any(data, &vec!["remain_quota", "remaining_quota"]);
    let remaining_units: Double = match first_amount(stated, plain) {
        Some(units) => units,
        None => {
            return None;
        },
    };
    let used_units: Option<Double> = number_any(data, &vec!["used_quota", "quota_used"]);
    let summed: Option<Double> = match used_units {
        Some(used) => Some(remaining_units.plus(used)),
        None => None,
    };
    let total_units: Option<Double> = first_amount(
        number_any(data, &vec!["total_quota", "quota_limit", "limit_quota"]),
        summed,
    );
    let remaining: Double = newapi_quota_to_usd(remaining_units);
    let used: Option<Double> = usd_of(used_units);
    let total: Option<Double> = usd_of(total_units);
    let unit: String = text_or(unit_of(data), "USD");
    let is_valid: bool = match validity_of(data) {
        Some(valid) => valid,
        None => match bool_any(body, &vec!["isValid", "is_valid", "is_active", "success"]) {
            Some(valid) => valid,
            None => remaining.is_positive(),
        },
    };
    let message: Option<String> = first_text(message_of(data), message_of(body));
    Some(
        BalanceSnapshot {
            upstream_id: upstream_id.to_string(),
            provider: provider.as_str().to_string(),
            remaining: Some(remaining),
            total,
            used,
            unit: Some(unit),
            is_valid,
            message,
            fetched_at: at,
        },
    )
}

/// The number in the first of some fields of the object of quotas.
fn quota_any(quota: Option<&Json>, keys: &Vec<&str>) -> (r: Option<Double>)
    ensures
        r == quota_number(
            match quota {
                Some(quota) => Some(quota.view()),
                None => None,
            },
            keys@,
        ),
        r matches Some(x) ==> x.wf(),
{
    match quota {
        Some(quota) => number_any(quota, keys),
        None => None,
    }
}

/// The object of quotas in an answer.
fn quota_field<'a>(body: &'a Json, data: &'a Json) -> (r: Option<&'a Json>)
    requires
        data.view() == data_of(body.view()),
    ensures
        match r {
            Some(quota) => quota_object(body.view()) == Some(quota.view()),
            None => quota_object(body.view()) is None,
        },
{
    let quota: Option<&Json> = match data.get("quota") {
        Some(quota) => Some(quota),
        None => body.get("quota"),
    };
    match quota {
        Some(quota) => match quota {
            Json::Object(_) => Some(quota),
            _ => None,
        },
        None => None,
    }
}

/// The balance that an answer states in plain fields.
fn parse_plain_balance(
    upstream_id: &str,
    provider: BalanceProvider,
    body: &Json,
    at: i64,
) -> (r: Option<BalanceSnapshot>)
    ensures
        match plain_balance(body.view()) {
            Some(v) => r matches Some(s) && records(&s, upstream_id@, provider, at, v),
            None => r is None,
        },
{
    let data: &Json = data_field(body);
    let quota: Option<&Json> = quota_field(body, data);
    let stated: Option<Double> = first_amount(
        first_amount(
            quota_any(quota, &vec!["remaining", "remain", "left"]),
            number_any(
                data,
                &vec![
                    "remaining",
                    "remain",
                    "remain_quota",
                    "left_quota",
                    "total_available",
                    "available",
                ],
            ),
        ),
        number_any(data, &vec!["balance", "available_balance", "availableBalance"]),
    );
    let used: Option<Double> = first_amount(
        quota_any(quota, &vec!["used", "usage"]),
        number_any(
            data,
            &vec!["used", "used_quota", "quota_used", "total_usage", "total_used"],
        ),
    );
    let total: Option<Double> = first_amount(
        quota_any(quota, &vec!["limit", "total"]),
        number_any(
            data,
            &vec!["limit", "total", "total_quota", "total_credits", "total_granted"],
        ),
    );
    let remaining: Double = match first_amount(stated, left(total, used)) {
        Some(remaining) => remaining,
        None => {
            return None;
        },
    };
    let quota_unit: Option<String> = match quota {
        Some(quota) => unit_of(quota),
        None => None,
    };
    let unit: String = text_or(first_text(unit_of(data), quota_unit), "USD");
    let is_valid: bool = match validity_of(data) {
        Some(valid) => valid,
        None => match validity_of(body) {
            Some(valid) => valid,
            None => remaining.is_positive(),
        },
    };
    let message: Option<String> = first_text(message_of(data), message_of(body));
    Some(
        BalanceSnapshot {
            upstream_id: upstream_id.to_string(),
            provider: provider.as_str().to_string(),
            remaining: Some(remaining),
            total,
            used,
            unit: Some(unit),
            is_valid,
            message,
            fetched_at: at,
        },
    )
}

/// The balance that a panel's answer states, at a given time.
pub fn parse_common_balance_at(
    upstream_id: &str,
    provider: BalanceProvider,
    body: &Json,
    at: i64,
) -> (r: Option<BalanceSnapshot>)
    ensures
        match common_balance(provider, body.view()) {
            Some(v) => r matches Some(s) && records(&s, upstream_id@, provider, at, v),
            None => r is None,
        },
{
    let data: &Json = data_field(body);
    let quota: Option<&Json> = quota_field(body, data);
    let by_quota: Option<BalanceSnapshot> = parse_quota_object_balance(
        upstream_id,
        provider,
        data,
        quota,
        at,
    );
    if by_quota.is_some() {
        return by_quota;
    }
    if provider == BalanceProvider::Auto || provider == BalanceProvider::NewApi {
        let by_units: Option<BalanceSnapshot> = parse_newapi_quota_balance(
            upstream_id,
            provider,
            data,
            body,
            at,
        );
        if by_units.is_some() {
            return by_units;
        }
    }
    parse_plain_balance(upstream_id, provider, body, at)
}

/// The balance that a panel's answer states, now.
pub fn parse_common_balance(upstream_id: &str, provider: BalanceProvider, body: &Json) -> (r: Option<
    BalanceSnapshot,
>)
    ensures
        match common_balance(provider, body.view()) {
            Some(v) => r matches Some(s) && s.fetched_at >= 0 && records(
                &s,
                upstream_id@,
                provider,
                s.fetched_at,
                v,
            ),
            None => r is None,
        },
{
    parse_common_balance_at(upstream_id, provider, body, clock::utc_now().seconds)
}

/// A snapshot that says why there is no balance.
pub fn invalid_snapshot(
    upstream_id: &str,
    provider: BalanceProvider,
    message: String,
    at: i64,
) -> (r: BalanceSnapshot)
    ensures
        records(
            &r,
            upstream_id@,
            provider,
            at,
            (BalanceView { message: Some(message@), ..unknown() }),
        ),
{
    BalanceSnapshot {
        upstream_id: upstream_id.to_string(),
        provider: provider.as_str().to_string(),
        remaining: None,
        total: None,
        used: None,
        unit: None,
        is_valid: false,
        message: Some(message),
        fetched_at: at,
    }
}

/// A snapshot that says why there is no balance, where an answer says so
/// outright.
pub fn parse_common_invalid(upstream_id: &str, provider: BalanceProvider, body: &Json, at: i64) -> (r:
    Option<BalanceSnapshot>)
    ensures
        match denial(body.view()) {
            Some(message) => r matches Some(s) && records(
                &s,
                upstream_id@,
                provider,
                at,
                (BalanceView { message: Some(message), ..unknown() }),
            ),
            None => r is None,
        },
{
    let data: &Json = data_field(body);
    let keys: Vec<&str> = vec!["success", "isValid", "is_valid", "is_active"];
    assert(keys@ =~= seq!["success", "isValid", "is_valid", "is_active"]);
    let denied: bool = match bool_any(body, &keys) {
        Some(b) => !b,
        None => false,
    } || match bool_any(data, &keys) {
        Some(b) => !b,
        None => false,
    };
    if !denied {
        return None;
    }
    let message: String = text_or(
        first_text(message_of(data), message_of(body)),
        "balance query failed",
    );
    Some(invalid_snapshot(upstream_id, provider, message, at))
}

/// The balance that a provider's answer states, at a given time.
pub fn parse_balance_at(
    upstream_id: &str,
    provider: BalanceProvider,
    unit: &str,
    body: &Json,
    at: i64,
) -> (r: BalanceSnapshot)
    ensures
        records(&r, upstream_id@, provider, at, provider_balance(provider, unit@, body.view())),
{
    let mut snapshot = BalanceSnapshot {
        upstream_id: upstream_id.to_string(),
        provider: provider.as_str().to_string(),
        remaining: None,
        total: None,
        used: None,
        unit: Some(unit.to_string()),
        is_valid: true,
        message: None,
        fetched_at: at,
    };
    match provider {
        BalanceProvider::DeepSeek => {
            snapshot.remaining = match body.get("balance_infos") {
                Some(Json::Array(items)) => if items.len() > 0 {
                    parse_number_field(&items[0], "total_balance")
                } else {
                    None
                },
                _ => None,
            };
            snapshot.is_valid = match body.get("is_available") {
                Some(Json::Bool(b)) => *b,
                _ => true,
            };
        },
        BalanceProvider::StepFun => {
            snapshot.remaining = parse_number_field(body, "balance");
        },
        BalanceProvider::SiliconFlowCn | BalanceProvider::SiliconFlowGlobal => {
            let data: &Json = data_field(body);
            snapshot.remaining = first_amount(
                parse_number_field(data, "totalBalance"),
                parse_number_field(data, "balance"),
            );
        },
        BalanceProvider::OpenRouter => {
            let data: &Json = data_field(body);
            let total: Option<Double> = parse_number_field(data, "total_credits");
            let used: Option<Double> = parse_number_field(data, "total_usage");
            snapshot.total = total;
            snapshot.used = used;
            if let Some(total) = total {
                if let Some(used) = used {
                    let remaining: Double = total.minus(used);
                    snapshot.remaining = Some(remaining);
                    snapshot.is_valid = remaining.is_positive();
                }
            }
        },
        BalanceProvider::Novita => {
            if let Some(x) = parse_number_field(body, "availableBalance") {
                let remaining: Double = x.over(10_000);
                snapshot.remaining = Some(remaining);
                snapshot.is_valid = remaining.is_positive();
            }
        },
        BalanceProvider::Sub2Api | BalanceProvider::NewApi => {
            if let Some(common) = parse_common_balance_at(upstream_id, provider, body, at) {
                return common;
            }
        },
        _ => {},
    }
    snapshot
}

/// The balance that a provider's answer states, now.
pub fn parse_balance(upstream_id: &str, provider: BalanceProvider, unit: &str, body: &Json) -> (r:
    BalanceSnapshot)
    ensures
        r.fetched_at >= 0,
        records(
            &r,
            upstream_id@,
            provider,
            r.fetched_at,
            provider_balance(provider, unit@, body.view()),
        ),
{
    parse_balance_at(upstream_id, provider, unit, body, clock::utc_now().seconds)
}

/// What is computed to be left of a total is never below zero.
pub proof fn law_left_is_not_negative(total: Option<Double>, used: Option<Double>)
    ensures
        left_of(total, used) matches Some(x) ==> !double::below(x, double::zero(false)),
{
}

/// The address of a provider that has one of its own, and the currency of its
/// balances.
pub open spec fn endpoint_of(provider: BalanceProvider) -> Option<(Seq<char>, Seq<char>)> {
    match provider {
        BalanceProvider::DeepSeek => Some(("https://api.deepseek.com/user/balance"@, "CNY"@)),
        BalanceProvider::StepFun => Some(("https://api.stepfun.com/v1/accounts"@, "CNY"@)),
        BalanceProvider::SiliconFlowCn => Some(
            ("https://api.siliconflow.cn/v1/user/info"@, "CNY"@),
        ),
        BalanceProvider::SiliconFlowGlobal => Some(
            ("https://api.siliconflow.com/v1/user/info"@, "USD"@),
        ),
        BalanceProvider::OpenRouter => Some(("https://openrouter.ai/api/v1/credits"@, "USD"@)),
        BalanceProvider::Novita => Some(("https://api.novita.ai/v3/user/balance"@, "USD"@)),
        _ => None,
    }
}

/// The address of a provider that has one of its own, and the currency of its
/// balances.
pub fn provider_endpoint(provider: BalanceProvider) -> (r: Option<(&'static str, &'static str)>)
    ensures
        match (r, endpoint_of(provider)) {
            (Some(found), Some(wanted)) => found.0@ == wanted.0 && found.1@ == wanted.1,
            (None, None) => true,
            _ => false,
        },
{
    match provider {
        BalanceProvider::DeepSeek => Some(("https://api.deepseek.com/user/balance", "CNY")),
        BalanceProvider::StepFun => Some(("https://api.stepfun.com/v1/accounts", "CNY")),
        BalanceProvider::SiliconFlowCn => Some(("https://api.siliconflow.cn/v1/user/info", "CNY")),
        BalanceProvider::SiliconFlowGlobal => Some(
            ("https://api.siliconflow.com/v1/user/info", "USD"),
        ),
        BalanceProvider::OpenRouter => Some(("https://openrouter.ai/api/v1/credits", "USD")),
        BalanceProvider::Novita => Some(("https://api.novita.ai/v3/user/balance", "USD")),
        _ => None,
    }
}

/// What a provider's answer says, with its status: the balance where it
/// succeeded, otherwise the status and the answer.
pub open spec fn answer_balance(
    provider: BalanceProvider,
    unit: Seq<char>,
    status: u16,
    body: JsonView,
) -> BalanceView {
    if http::is_success(status) {
        provider_balance(provider, unit, body)
    } else {
        BalanceView {
            message: Some(
                "HTTP "@ + http::status_text(status) + ": "@ + json::json_text(body),
            ),
            ..unknown()
        }
    }
}

/// What a provider's answer says, with its status.
pub fn provider_answer(
    upstream_id: &str,
    provider: BalanceProvider,
    unit: &str,
    status: u16,
    body: &Json,
    at: i64,
) -> (r: BalanceSnapshot)
    requires
        100 <= status < 1000,
    ensures
        records(
            &r,
            upstream_id@,
            provider,
            at,
            answer_balance(provider, unit@, status, body.view()),
        ),
{
    if 200 <= status && status < 300 {
        parse_balance_at(upstream_id, provider, unit, body, at)
    } else {
        let message: String = text::concat4(
            "HTTP ",
            http::status_line(status).as_str(),
            ": ",
            json::to_text(body).as_str(),
        );
        invalid_snapshot(upstream_id, provider, message, at)
    }
}

/// How an upstream's balance is asked for.
#[derive(Debug, Clone, Copy, PartialEq, Eq, Structural)]
pub enum BalanceQuery {
    /// The addresses of a panel, one after the other.
    Panel(BalanceProvider),
    /// The provider's own address.
    Provider(BalanceProvider),
    /// Not at all: the upstream has no API key of its own.
    NotApiKey,
    /// Not at all: nothing is known of where to ask.
    Unsupported,
}

/// How a provider's balance is asked for.
pub open spec fn query_for(provider: BalanceProvider) -> BalanceQuery {
    match provider {
        BalanceProvider::Sub2Api | BalanceProvider::NewApi | BalanceProvider::Auto => {
            BalanceQuery::Panel(provider)
        },
        BalanceProvider::Unsupported => BalanceQuery::Unsupported,
        _ => if endpoint_of(provider) is Some {
            BalanceQuery::Provider(provider)
        } else {
            BalanceQuery::Unsupported
        },
    }
}

/// How an upstream's balance is asked for: an automatic provider is the one
/// that the base URL belongs to, or a panel where it belongs to none.
pub open spec fn query_of(
    kind: UpstreamKind,
    provider: BalanceProvider,
    detected: Option<BalanceProvider>,
) -> BalanceQuery {
    if kind != UpstreamKind::RelayApiKey {
        BalanceQuery::NotApiKey
    } else if provider == BalanceProvider::Auto {
        match detected {
            Some(found) => query_for(found),
            None => BalanceQuery::Panel(BalanceProvider::Auto),
        }
    } else {
        query_for(provider)
    }
}

/// How an upstream's balance is asked for, the provider of its base URL being
/// known.
pub fn plan_query(
    kind: UpstreamKind,
    provider: BalanceProvider,
    detected: Option<BalanceProvider>,
) -> (r: BalanceQuery)
    ensures
        r == query_of(kind, provider, detected),
{
    if kind != UpstreamKind::RelayApiKey {
        return BalanceQuery::NotApiKey;
    }
    let provider: BalanceProvider = if provider == BalanceProvider::Auto {
        match detected {
            Some(found) => found,
            None => BalanceProvider::Auto,
        }
    } else {
        provider
    };
    match provider {
        BalanceProvider::Sub2Api | BalanceProvider::NewApi | BalanceProvider::Auto => {
            BalanceQuery::Panel(provider)
        },
        BalanceProvider::Unsupported => BalanceQuery::Unsupported,
        _ => {
            if provider_endpoint(provider).is_some() {
                BalanceQuery::Provider(provider)
            } else {
                BalanceQuery::Unsupported
            }
        },
    }
}

/// How an upstream's balance is asked for.
pub fn balance_query(kind: UpstreamKind, provider: BalanceProvider, base_url: &str) -> (r:
    BalanceQuery)
    ensures
        r == query_of(kind, provider, provider_of(text::lowercase_of(base_url@))),
{
    plan_query(kind, provider, detect_provider(base_url))
}

/// The addresses of a panel that are still to be asked, and what the last one
/// said.
pub struct PanelQuery {
    pub provider: BalanceProvider,
    pub urls: Vec<CommonBalanceUrl>,
    pub next: usize,
    pub last_error: Option<String>,
}

/// The tree of an answer, with nothing in it where it is no JSON.
pub open spec fn tree_of(answer: Seq<char>) -> JsonView {
    match json::json_of_bytes(utf8::encode_utf8(answer)) {
        Ok(v) => v,
        Err(_) => JsonView::Null,
    }
}

/// What an answer of a panel leads to: a balance, or what to say of the
/// address before the next one is asked.
pub enum PanelOutcome {
    Found(BalanceView),
    Refused(Seq<char>),
}

/// What an answer of a panel leads to.
pub open spec fn outcome_of(
    provider: BalanceProvider,
    url: Seq<char>,
    status: u16,
    answer: Seq<char>,
    body: JsonView,
) -> PanelOutcome {
    if !http::is_success(status) {
        if tries_next(status) {
            PanelOutcome::Refused(url + ": HTTP "@ + http::status_text(status))
        } else {
            PanelOutcome::Found(
                BalanceView {
                    message: Some("HTTP "@ + http::status_text(status) + ": "@ + answer),
                    ..unknown()
                },
            )
        }
    } else {
        match common_balance(provider, body) {
            Some(v) => PanelOutcome::Found(v),
            None => match denial(body) {
                Some(message) => PanelOutcome::Refused(url + ": "@ + message),
                None => PanelOutcome::Refused(
                    url + ": unsupported balance response "@ + json::json_text(body),
                ),
            },
        }
    }
}

/// What to do next about a panel.
pub enum PanelStep {
    /// Ask an address with these headers.
    Request { url: String, headers: CommonBalanceHeaders },
    /// Done, with this result.
    Done(BalanceSnapshot),
}

/// The first address from a position on for which there are credentials, or
/// the number of addresses.
pub open spec fn next_with_headers(
    urls: Seq<CommonBalanceUrl>,
    auth: CommonBalanceAuth,
    from: int,
) -> int
    decreases urls.len() - from,
{
    if from >= urls.len() || auth.headers(urls[from].kind) is Some {
        from
    } else {
        next_with_headers(urls, auth, from + 1)
    }
}

/// What is said last after passing over addresses without credentials.
pub open spec fn error_after_skips(
    urls: Seq<CommonBalanceUrl>,
    from: int,
    to: int,
    last: Option<Seq<char>>,
) -> Option<Seq<char>> {
    if from < to {
        Some(urls[to - 1].url@ + ": missing new-api user key or user id"@)
    } else {
        last
    }
}

impl PanelQuery {
    /// The query stands at one of its addresses or behind them.
    pub open spec fn wf(&self) -> bool {
        self.next <= self.urls@.len()
    }

    /// Starts with the first address.
    pub fn new(base_url: &str, provider: BalanceProvider) -> (r: Self)
        requires
            base_url@.len() <= url_text::LONGEST_URL,
        ensures
            r.wf(),
            r.provider == provider,
            entries(r.urls@) == panel_urls(base_url@, provider),
            r.next == 0,
            r.last_error is None,
    {
        PanelQuery {
            provider,
            urls: common_balance_urls(base_url, provider),
            next: 0,
            last_error: None,
        }
    }

    /// The next address for which there are credentials; where there is none
    /// left, a snapshot with what was said last.
    pub fn step(&mut self, auth: &CommonBalanceAuth, upstream_id: &str, at: i64) -> (r: PanelStep)
        requires
            old(self).wf(),
        ensures
            final(self).wf(),
            final(self).provider == old(self).provider,
            final(self).urls@ == old(self).urls@,
            final(self).next == next_with_headers(old(self).urls@, *auth, old(self).next as int),
            text::opt_view(final(self).last_error) == error_after_skips(
                old(self).urls@,
                old(self).next as int,
                final(self).next as int,
                text::opt_view(old(self).last_error),
            ),
            match r {
                PanelStep::Request { url, headers } => {
                    &&& final(self).next < final(self).urls@.len()
                    &&& url@ == final(self).urls@[final(self).next as int].url@
                    &&& auth.headers(final(self).urls@[final(self).next as int].kind) == Some(headers)
                },
                PanelStep::Done(s) => {
                    &&& final(self).next == final(self).urls@.len()
                    &&& records(
                        &s,
                        upstream_id@,
                        final(self).provider,
                        at,
                        (BalanceView {
                            message: Some(
                                or_else(
                                    text::opt_view(final(self).last_error),
                                    "unsupported balance provider"@,
                                ),
                            ),
                            ..unknown()
                        }),
                    )
                },
            },
    {
        let ghost start = self.next as int;
        let ghost first_error = text::opt_view(self.last_error);
        while self.next < self.urls.len()
            invariant
                self.wf(),
                self.provider == old(self).provider,
                self.urls@ == old(self).urls@,
                start == old(self).next,
                first_error == text::opt_view(old(self).last_error),
                start <= self.next,
                next_with_headers(old(self).urls@, *auth, start) == next_with_headers(
                    old(self).urls@,
                    *auth,
                    self.next as int,
                ),
                text::opt_view(self.last_error) == error_after_skips(
                    old(self).urls@,
                    start,
                    self.next as int,
                    first_error,
                ),
            decreases self.urls@.len() - self.next,
        {
            match auth.headers_for(self.urls[self.next].kind) {
                Some(headers) => {
                    return PanelStep::Request { url: self.urls[self.next].url.clone(), headers };
                },
                None => {
                    self.last_error = Some(
                        text::concat(
                            self.urls[self.next].url.as_str(),
                            ": missing new-api user key or user id",
                        ),
                    );
                    self.next = self.next + 1;
                },
            }
        }
        let message: String = match &self.last_error {
            Some(message) => message.clone(),
            None => "unsupported balance provider".to_string(),
        };
        PanelStep::Done(invalid_snapshot(upstream_id, self.provider, message, at))
    }

    /// The request to the present address failed.
    pub fn request_failed(&mut self, error: &str)
        requires
            old(self).wf(),
            old(self).next < old(self).urls@.len(),
        ensures
            final(self).wf(),
            final(self).provider == old(self).provider,
            final(self).urls@ == old(self).urls@,
            final(self).next == old(self).next + 1,
            text::opt_view(final(self).last_error) == Some(
                old(self).urls@[old(self).next as int].url@ + ": "@ + error@,
            ),
    {
        let count: usize = self.urls.len();
        self.last_error = Some(
            text::concat3(self.urls[self.next].url.as_str(), ": ", error),
        );
        assert(self.next < count);
        self.next = self.next + 1;
    }

    /// The present address has answered: the balance, or nothing and on to the
    /// next address. The answer's tree is given beside its text.
    pub fn answered_with(
        &mut self,
        upstream_id: &str,
        status: u16,
        answer: &str,
        body: &Json,
        at: i64,
    ) -> (r: Option<BalanceSnapshot>)
        requires
            old(self).wf(),
            old(self).next < old(self).urls@.len(),
            100 <= status < 1000,
        ensures
            final(self).wf(),
            final(self).provider == old(self).provider,
            final(self).urls@ == old(self).urls@,
            match outcome_of(
                old(self).provider,
                old(self).urls@[old(self).next as int].url@,
                status,
                answer@,
                body.view(),
            ) {
                PanelOutcome::Found(v) => {
                    &&& r matches Some(s) && records(&s, upstream_id@, old(self).provider, at, v)
                    &&& final(self).next == old(self).next
                    &&& text::opt_view(final(self).last_error) == text::opt_view(
                        old(self).last_error,
                    )
                },
                PanelOutcome::Refused(message) => {
                    &&& r is None
                    &&& final(self).next == old(self).next + 1
                    &&& text::opt_view(final(self).last_error) == Some(message)
                },
            },
    {
        let count: usize = self.urls.len();
        let url: String = self.urls[self.next].url.clone();
        assert(self.next < count);
        if !(200 <= status && status < 300) {
            let line: String = http::status_line(status);
            if should_try_next_common_status(status) {
                self.last_error = Some(text::concat3(url.as_str(), ": HTTP ", line.as_str()));
                self.next = self.next + 1;
                return None;
            }
            let message: String = text::concat4("HTTP ", line.as_str(), ": ", answer);
            return Some(invalid_snapshot(upstream_id, self.provider, message, at));
        }
        let found: Option<BalanceSnapshot> = parse_common_balance_at(
            upstream_id,
            self.provider,
            body,
            at,
        );
        if found.is_some() {
            return found;
        }
        match parse_common_invalid(upstream_id, self.provider, body, at) {
            Some(denied) => {
                let message: String = text_or(denied.message, "balance query failed");
                self.last_error = Some(text::concat3(url.as_str(), ": ", message.as_str()));
            },
            None => {
                self.last_error = Some(
                    text::concat3(
                        url.as_str(),
                        ": unsupported balance response ",
                        json::to_text(body).as_str(),
                    ),
                );
            },
        }
        self.next = self.next + 1;
        None
    }

    /// The present address has answered with a text.
    pub fn answered(&mut self, upstream_id: &str, status: u16, answer: &str, at: i64) -> (r: Option<
        BalanceSnapshot,
    >)
        requires
            old(self).wf(),
            old(self).next < old(self).urls@.len(),
            100 <= status < 1000,
        ensures
            final(self).wf(),
            final(self).provider == old(self).provider,
            final(self).urls@ == old(self).urls@,
            match outcome_of(
                old(self).provider,
                old(self).urls@[old(self).next as int].url@,
                status,
                answer@,
                tree_of(answer@),
            ) {
                PanelOutcome::Found(v) => {
                    &&& r matches Some(s) && records(&s, upstream_id@, old(self).provider, at, v)
                    &&& final(self).next == old(self).next
                    &&& text::opt_view(final(self).last_error) == text::opt_view(
                        old(self).last_error,
                    )
                },
                PanelOutcome::Refused(message) => {
                    &&& r is None
                    &&& final(self).next == old(self).next + 1
                    &&& text::opt_view(final(self).last_error) == Some(message)
                },
            },
    {
        let body: Json = match json::parse(answer.as_bytes()) {
            Ok(body) => body,
            Err(_) => Json::Null,
        };
        self.answered_with(upstream_id, status, answer, &body, at)
    }
}

/// A field states a number where it holds one, or a text that writes one; no
/// other value is taken for an amount.
pub proof fn law_amounts_are_numbers_or_texts(v: JsonView, key: Seq<char>, bits: u64, s: Seq<char>)
    ensures
        (json::field(v, key) is Some && json::field(v, key)->0 is Number && json::field(v, key)->0->bits
            == Some(bits)) ==> number_in(v, key) == Some(double::of_bits(bits)),
        json::field(v, key) == Some(JsonView::Text(s)) ==> number_in(v, key) == double::of_text(s),
        number_in(v, key) is Some ==> json::field(v, key) is Some && (json::field(v, key)->0
            is Number || json::field(v, key)->0 is Text),
{
}

/// Of some fields the first that holds a number is taken, whatever the later
/// ones hold, and nothing where none does.
pub proof fn law_first_number_is_taken(v: JsonView, keys: Seq<&str>, i: int)
    requires
        0 <= i <= keys.len(),
        forall|j: int| 0 <= j < i ==> number_in(v, (#[trigger] keys[j])@) is None,
    ensures
        i == keys.len() ==> first_number(v, keys) is None,
        i < keys.len() && number_in(v, keys[i]@) is Some ==> first_number(v, keys) == number_in(
            v,
            keys[i]@,
        ),
    decreases i,
{
    if i > 0 {
        let rest = keys.skip(1);
        assert(number_in(v, keys[0]@) is None);
        assert forall|j: int| 0 <= j < i - 1 implies number_in(v, (#[trigger] rest[j])@) is None by {
            assert(rest[j] == keys[j + 1]);
        }
        law_first_number_is_taken(v, rest, i - 1);
    }
}

/// Of some fields the first that holds a text is taken.
pub proof fn law_first_text_is_taken(v: JsonView, keys: Seq<&str>, i: int)
    requires
        0 <= i <= keys.len(),
        forall|j: int| 0 <= j < i ==> json::string_field(v, (#[trigger] keys[j])@) is None,
    ensures
        i == keys.len() ==> first_string(v, keys) is None,
        i < keys.len() && json::string_field(v, keys[i]@) is Some ==> first_string(v, keys)
            == json::string_field(v, keys[i]@),
    decreases i,
{
    if i > 0 {
        let rest = keys.skip(1);
        assert(json::string_field(v, keys[0]@) is None);
        assert forall|j: int| 0 <= j < i - 1 implies json::string_field(v, (#[trigger] rest[j])@)
            is None by {
            assert(rest[j] == keys[j + 1]);
        }
        law_first_text_is_taken(v, rest, i - 1);
    }
}

/// What each provider's answer states is what is left: at SiliconFlow the whole
/// balance before the plain one, at OpenRouter the credits less their usage, at
/// Novita the balance in ten-thousandths, at DeepSeek the first account.
pub proof fn law_provider_states_what_is_left(unit: Seq<char>, body: JsonView, data: JsonView)
    requires
        json::field(body, "data"@) == Some(data) || (json::field(body, "data"@) is None && data
            == body),
    ensures
        forall|p: BalanceProvider|
            p == BalanceProvider::SiliconFlowCn || p == BalanceProvider::SiliconFlowGlobal ==> {
                let whole = number_in(data, "totalBalance"@);
                let plain = number_in(data, "balance"@);
                let r = (#[trigger] provider_balance(p, unit, body)).remaining;
                (whole is Some ==> r == whole) && (whole is None ==> r == plain)
            },
        provider_balance(BalanceProvider::StepFun, unit, body).remaining == number_in(
            body,
            "balance"@,
        ),
        ({
            let r = provider_balance(BalanceProvider::OpenRouter, unit, body);
            let credits = number_in(data, "total_credits"@);
            let usage = number_in(data, "total_usage"@);
            &&& r.total == credits && r.used == usage
            &&& r.remaining is Some <==> credits is Some && usage is Some
            &&& r.remaining is Some ==> r.remaining->0 == double::difference_of(
                credits->0,
                usage->0,
            )
            &&& r.is_valid <==> (r.remaining is Some ==> double::below(
                double::zero(false),
                r.remaining->0,
            ))
        }),
        ({
            let r = provider_balance(BalanceProvider::Novita, unit, body);
            let raw = number_in(body, "availableBalance"@);
            &&& r.remaining is Some <==> raw is Some
            &&& raw is Some ==> r.remaining->0 == double::divided_by(raw->0, 10_000)
            &&& r.is_valid <==> (raw is Some ==> double::below(
                double::zero(false),
                r.remaining->0,
            ))
        }),
        ({
            let r = provider_balance(BalanceProvider::DeepSeek, unit, body);
            let accounts = json::field(body, "balance_infos"@);
            &&& (accounts matches Some(JsonView::Array(items)) ==> (items.len() > 0 ==> r.remaining
                == number_in(items[0], "total_balance"@)))
            &&& !(accounts is Some && accounts->0 is Array) ==> r.remaining is None
            &&& !r.is_valid <==> json::field(body, "is_available"@) == Some(JsonView::Bool(false))
        }),
{
}

/// A provider that has an address of its own states its balance in the given
/// unit, without a message, and leaves the totals open but where it counts
/// credits.
pub proof fn law_provider_keeps_the_unit(
    provider: BalanceProvider,
    unit: Seq<char>,
    body: JsonView,
)
    requires
        provider != BalanceProvider::Sub2Api && provider != BalanceProvider::NewApi,
    ensures
        provider_balance(provider, unit, body).unit == Some(unit),
        provider_balance(provider, unit, body).message is None,
        provider != BalanceProvider::OpenRouter ==> provider_balance(provider, unit, body).total
            is None && provider_balance(provider, unit, body).used is None,
{
}

/// In an object of quotas what is said to be left wins over what is computed
/// from the limit and the usage, under whichever of its names it stands.
pub proof fn law_quota_states_what_is_left(data: JsonView, quota: JsonView)
    ensures
        ({
            let r = quota_balance(data, Some(quota));
            let a = number_in(quota, "remaining"@);
            let b = number_in(quota, "remain"@);
            let c = number_in(quota, "left"@);
            let limit = number_in(quota, "limit"@);
            let total = number_in(quota, "total"@);
            let used = number_in(quota, "used"@);
            let usage = number_in(quota, "usage"@);
            &&& a is Some ==> r is Some && r->0.remaining == a
            &&& a is None && b is Some ==> r is Some && r->0.remaining == b
            &&& a is None && b is None && c is Some ==> r is Some && r->0.remaining == c
            &&& r is Some && limit is Some ==> r->0.total == limit
            &&& r is Some && limit is None ==> r->0.total == total
            &&& r is Some && used is Some ==> r->0.used == used
            &&& r is Some && used is None ==> r->0.used == usage
            &&& r is Some <==> a is Some || b is Some || c is Some || ((limit is Some
                || total is Some) && (used is Some || usage is Some))
            &&& r is Some && a is None && b is None && c is None ==> {
                let t = r->0.total->0;
                let u = r->0.used->0;
                let left = r->0.remaining->0;
                &&& !double::below(left, double::zero(false))
                &&& double::below(double::zero(false), double::difference_of(t, u)) ==> left
                    == double::difference_of(t, u)
            }
            &&& r is Some && validity_in(data) is None ==> (r->0.is_valid <==> double::below(
                double::zero(false),
                r->0.remaining->0,
            ))
            &&& r is Some && validity_in(data) is Some ==> r->0.is_valid == validity_in(data)->0
        }),
        quota_balance(data, None) is None,
{
    reveal_with_fuel(first_number, 4);
    law_left_is_not_negative(
        first_number(quota, seq!["limit", "total"]),
        first_number(quota, seq!["used", "usage"]),
    );
}

/// Half a million quota units of a panel are a dollar: what it counts as left,
/// used and in all is shown as so many dollars.
pub proof fn law_panel_counts_in_quota_units(
    provider: BalanceProvider,
    data: JsonView,
    body: JsonView,
)
    ensures
        ({
            let r = newapi_balance(provider, data, body);
            let a = number_in(data, "remain_quota"@);
            let b = number_in(data, "remaining_quota"@);
            let used = number_in(data, "used_quota"@);
            let total = number_in(data, "total_quota"@);
            let quota = number_in(data, "quota"@);
            &&& a is Some ==> r is Some && r->0.remaining == Some(
                double::divided_by(a->0, 500_000),
            )
            &&& a is None && b is Some ==> r is Some && r->0.remaining == Some(
                double::divided_by(b->0, 500_000),
            )
            &&& a is None && b is None && quota is Some && provider == BalanceProvider::NewApi
                ==> r is Some && r->0.remaining == Some(double::divided_by(quota->0, 500_000))
            &&& a is None && b is None && quota is None ==> r is None
            &&& r is Some && used is Some ==> r->0.used == Some(
                double::divided_by(used->0, 500_000),
            )
            &&& r is Some && total is Some ==> r->0.total == Some(
                double::divided_by(total->0, 500_000),
            )
            &&& a is Some && used is Some && total is None && number_in(data, "quota_limit"@)
                is None && number_in(data, "limit_quota"@) is None ==> r->0.total == Some(
                double::divided_by(double::sum_of(a->0, used->0), 500_000),
            )
            &&& r is Some ==> r->0.remaining is Some
        }),
{
    reveal_with_fuel(first_number, 4);
}

/// A balance of a panel is found exactly where its answer states one in some
/// way, and then says how much is left; quotas come before quota units, and
/// these before plain fields.
pub proof fn law_panel_balance_says_what_is_left(provider: BalanceProvider, body: JsonView)
    ensures
        ({
            let r = common_balance(provider, body);
            let data = data_of(body);
            let quotas = quota_balance(data, quota_object(body));
            let units = newapi_balance(provider, data, body);
            let plain = plain_balance(body);
            let counts = provider == BalanceProvider::Auto || provider == BalanceProvider::NewApi;
            &&& r is Some ==> r->0.remaining is Some
            &&& quotas is Some ==> r == quotas
            &&& quotas is None && counts && units is Some ==> r == units
            &&& quotas is None && !(counts && units is Some) ==> r == plain
        }),
        json::field(body, "data"@) is Some ==> data_of(body) == json::field(body, "data"@)->0,
        json::field(body, "data"@) is None ==> data_of(body) == body,
{
    reveal_with_fuel(first_number, 4);
}

/// In plain fields what is said to be left wins over a balance, and this over
/// what is computed.
pub proof fn law_plain_fields_state_what_is_left(body: JsonView, data: JsonView)
    requires
        json::field(body, "data"@) == Some(data) || (json::field(body, "data"@) is None && data
            == body),
        quota_object(body) is None,
    ensures
        ({
            let r = plain_balance(body);
            let a = number_in(data, "remaining"@);
            let b = number_in(data, "remain"@);
            let none = b is None && number_in(data, "remain_quota"@) is None && number_in(
                data,
                "left_quota"@,
            ) is None && number_in(data, "total_available"@) is None && number_in(
                data,
                "available"@,
            ) is None;
            let balance = number_in(data, "balance"@);
            &&& a is Some ==> r is Some && r->0.remaining == a
            &&& a is None && b is Some ==> r is Some && r->0.remaining == b
            &&& a is None && none && balance is Some ==> r is Some && r->0.remaining == balance
            &&& r is Some && number_in(data, "used"@) is Some ==> r->0.used == number_in(
                data,
                "used"@,
            )
            &&& r is Some && number_in(data, "limit"@) is Some ==> r->0.total == number_in(
                data,
                "limit"@,
            )
            &&& r is Some && validity_in(data) is None && validity_in(body) is None ==> (
            r->0.is_valid <==> double::below(double::zero(false), r->0.remaining->0))
        }),
{
    reveal_with_fuel(first_number, 8);
}

/// What is stated under the names of a unit, a message and a validity is taken
/// in the order of these names.
pub proof fn law_names_of_unit_message_and_validity(v: JsonView, b: bool)
    ensures
        ({
            let unit = json::string_field(v, "unit"@);
            let currency = json::string_field(v, "currency"@);
            (unit is Some ==> unit_in(v) == unit) && (unit is None ==> unit_in(v) == currency)
        }),
        ({
            let message = json::string_field(v, "message"@);
            let error = json::string_field(v, "error"@);
            &&& message is Some ==> message_in(v) == message
            &&& message is None && error is Some ==> message_in(v) == error
            &&& message is None && error is None ==> message_in(v) == json::string_field(
                v,
                "invalid_message"@,
            )
        }),
        json::field(v, "isValid"@) == Some(JsonView::Bool(b)) ==> validity_in(v) == Some(b),
        json::field(v, "isValid"@) is None && json::field(v, "is_valid"@) == Some(
            JsonView::Bool(b),
        ) ==> validity_in(v) == Some(b),
        json::field(v, "isValid"@) is None && json::field(v, "is_valid"@) is None && json::field(
            v,
            "is_active"@,
        ) == Some(JsonView::Bool(b)) ==> validity_in(v) == Some(b),
        json::field(v, "isValid"@) is None && json::field(v, "is_valid"@) is None && json::field(
            v,
            "is_active"@,
        ) is None ==> validity_in(v) is None,
{
    reveal_with_fuel(first_string, 4);
    reveal_with_fuel(first_bool, 4);
}

/// An answer that says it failed is no balance, and its own words are told.
pub proof fn law_denial_is_told(body: JsonView)
    ensures
        json::field(body, "success"@) == Some(JsonView::Bool(false)) ==> denies(body),
        denies(body) <==> denial(body) is Some,
        denies(body) && json::field(body, "data"@) is None && json::string_field(
            body,
            "message"@,
        ) is Some ==> denial(body) == json::string_field(body, "message"@),
{
    reveal_with_fuel(first_bool, 5);
    reveal_with_fuel(first_string, 4);
}

/// An answer of a panel is a balance only where it succeeded and states one;
/// after an error other than one of the five that speak against the address no
/// other address is asked, and such an answer is no valid balance.
pub proof fn law_panel_answer_is_taken_where_it_states_a_balance(
    provider: BalanceProvider,
    url: Seq<char>,
    status: u16,
    answer: Seq<char>,
    body: JsonView,
)
    ensures
        ({
            let r = outcome_of(provider, url, status, answer, body);
            let ok = 200 <= status <= 299;
            let next = status == 400 || status == 401 || status == 403 || status == 404 || status
                == 405;
            &&& ok && common_balance(provider, body) is Some ==> r == PanelOutcome::Found(
                common_balance(provider, body)->0,
            )
            &&& ok && common_balance(provider, body) is None ==> r is Refused
            &&& !ok && next ==> r is Refused
            &&& !ok && !next ==> (r matches PanelOutcome::Found(v) && !v.is_valid && v.remaining
                is None && v.message is Some)
            &&& (r matches PanelOutcome::Refused(message) ==> url.is_prefix_of(message))
        }),
{
    if let PanelOutcome::Refused(message) = outcome_of(provider, url, status, answer, body) {
        assert(url.is_prefix_of(message)) by {
            if !http::is_success(status) {
                assert(url =~= (url + ": HTTP "@ + http::status_text(status)).subrange(
                    0,
                    url.len() as int,
                ));
            } else if denial(body) is Some {
                assert(url =~= (url + ": "@ + denial(body)->0).subrange(0, url.len() as int));
            } else {
                assert(url =~= (url + ": unsupported balance response "@ + json::json_text(body)).subrange(
                    0,
                    url.len() as int,
                ));
            }
        }
    }
}

/// A provider's answer that did not succeed is no valid balance and says the
/// status; one that did is read as the provider states it.
pub proof fn law_failed_answer_is_no_balance(
    provider: BalanceProvider,
    unit: Seq<char>,
    status: u16,
    body: JsonView,
)
    ensures
        200 <= status <= 299 ==> answer_balance(provider, unit, status, body) == provider_balance(
            provider,
            unit,
            body,
        ),
        !(200 <= status <= 299) ==> ({
            let r = answer_balance(provider, unit, status, body);
            !r.is_valid && r.remaining is None && r.message is Some
        }),
{
}

/// Only a relay is asked for a balance. An automatic provider is asked as the
/// one that its address names, and a chosen one whatever the address says; the
/// panels are asked at the upstream, the others at their own address.
pub proof fn law_balance_is_asked_of_the_right_provider(
    kind: UpstreamKind,
    provider: BalanceProvider,
    detected: Option<BalanceProvider>,
    other: Option<BalanceProvider>,
)
    ensures
        ({
            let q = query_of(kind, provider, detected);
            let relay = kind == UpstreamKind::RelayApiKey;
            &&& !relay <==> q == BalanceQuery::NotApiKey
            &&& provider != BalanceProvider::Auto ==> q == query_of(kind, provider, other)
            &&& detected is Some && detected->0 != BalanceProvider::Auto ==> query_of(
                kind,
                BalanceProvider::Auto,
                detected,
            ) == query_of(kind, detected->0, other)
            &&& relay ==> query_of(kind, BalanceProvider::Auto, None) == BalanceQuery::Panel(
                BalanceProvider::Auto,
            )
            &&& relay && (provider == BalanceProvider::Sub2Api || provider
                == BalanceProvider::NewApi) ==> q == BalanceQuery::Panel(provider)
            &&& relay && (provider == BalanceProvider::DeepSeek || provider
                == BalanceProvider::StepFun || provider == BalanceProvider::SiliconFlowCn
                || provider == BalanceProvider::SiliconFlowGlobal || provider
                == BalanceProvider::OpenRouter || provider == BalanceProvider::Novita) ==> q
                == BalanceQuery::Provider(provider)
            &&& relay && (provider == BalanceProvider::Unsupported || provider
                == BalanceProvider::Zhipu) ==> q == BalanceQuery::Unsupported
            &&& (q matches BalanceQuery::Provider(p) ==> endpoint_of(p) is Some)
        }),
{
}

/// The credentials of a panel's user go to its own address alone, and the API
/// key to the others alone; with both at hand either is asked.
pub proof fn law_credentials_go_where_they_belong(
    auth: CommonBalanceAuth,
    kind: CommonBalanceUrlKind,
)
    ensures
        ({
            let h = auth.headers(kind);
            &&& h is Some ==> (h->0.newapi_user_id is Some <==> kind == CommonBalanceUrlKind::NewApi)
            &&& (auth matches CommonBalanceAuth::ApiKey { api_key } ==> (h is Some <==> kind
                == CommonBalanceUrlKind::Generic) && (h is Some ==> h->0.bearer == api_key))
            &&& (auth matches CommonBalanceAuth::NewApi { user_key, user_id } ==> (h is Some
                <==> kind == CommonBalanceUrlKind::NewApi) && (h is Some ==> h->0.bearer
                == user_key && h->0.newapi_user_id == Some(user_id)))
            &&& (auth matches CommonBalanceAuth::Auto { api_key, newapi_user_key, newapi_user_id }
                ==> {
                &&& kind == CommonBalanceUrlKind::Generic ==> h is Some && h->0.bearer == api_key
                &&& kind == CommonBalanceUrlKind::NewApi ==> (h is Some <==> newapi_user_key
                    is Some && newapi_user_id is Some)
                &&& kind == CommonBalanceUrlKind::NewApi && h is Some ==> h->0.bearer
                    == newapi_user_key->0 && h->0.newapi_user_id == newapi_user_id
            })
        }),
{
}

/// A panel's usage is asked for below the base address and then at the root, a
/// new-api panel's user at its own address, and an unknown panel at all of them
/// in that order.
pub proof fn law_panel_addresses(base_url: Seq<char>)
    ensures
        ({
            let below = below_path(base_url, "usage"@);
            let root = url_text::url_at_path(base_url, "/v1/usage"@);
            let own = url_text::url_at_path(base_url, "/api/user/self"@);
            let sub = panel_urls(base_url, BalanceProvider::Sub2Api);
            let new = panel_urls(base_url, BalanceProvider::NewApi);
            let auto = panel_urls(base_url, BalanceProvider::Auto);
            &&& below is Some ==> sub.len() > 0 && sub[0] == (
                below->0,
                CommonBalanceUrlKind::Generic,
            )
            &&& root is Some ==> lists(sub, root->0)
            &&& own is Some ==> new =~= seq![(own->0, CommonBalanceUrlKind::NewApi)]
            &&& own is None ==> new.len() == 0
            &&& sub.is_prefix_of(auto)
            &&& own is Some ==> lists(auto, own->0)
            &&& forall|i: int|
                0 <= i < sub.len() ==> (#[trigger] sub[i]).1 == CommonBalanceUrlKind::Generic
            &&& auto.len() <= sub.len() + 1
            &&& auto.len() == sub.len() + 1 ==> own is Some && auto.last() == (
                own->0,
                CommonBalanceUrlKind::NewApi,
            )
        }),
{
    let none = Seq::<(Seq<char>, CommonBalanceUrlKind)>::empty();
    let below = below_path(base_url, "usage"@);
    let root = url_text::url_at_path(base_url, "/v1/usage"@);
    let own = url_text::url_at_path(base_url, "/api/user/self"@);
    let first = with_unique(none, below, CommonBalanceUrlKind::Generic);
    let sub = panel_urls(base_url, BalanceProvider::Sub2Api);
    let auto = panel_urls(base_url, BalanceProvider::Auto);
    let new = panel_urls(base_url, BalanceProvider::NewApi);
    assert(!lists(none, own->0) && !lists(none, below->0));
    if root is Some {
        if !lists(first, root->0) {
            assert(sub[first.len() as int].0 == root->0);
        }
    }
    if own is Some {
        if !lists(sub, own->0) {
            assert(auto[sub.len() as int].0 == own->0);
        }
        assert(new =~= seq![(own->0, CommonBalanceUrlKind::NewApi)]);
    }
    assert(sub =~= auto.subrange(0, sub.len() as int));
}

/// A provider's own address is at its own domain, and its balances are in the
/// currency of its site.
pub proof fn law_provider_addresses_are_at_their_domains()
    ensures
        ({
            let at = |p: BalanceProvider| endpoint_of(p)->0;
            &&& text::occurs_at(at(BalanceProvider::DeepSeek).0, "https://api.deepseek.com/"@, 0)
            &&& text::occurs_at(at(BalanceProvider::StepFun).0, "https://api.stepfun.com/"@, 0)
            &&& text::occurs_at(
                at(BalanceProvider::SiliconFlowCn).0,
                "https://api.siliconflow.cn/"@,
                0,
            )
            &&& text::occurs_at(
                at(BalanceProvider::SiliconFlowGlobal).0,
                "https://api.siliconflow.com/"@,
                0,
            )
            &&& text::occurs_at(at(BalanceProvider::OpenRouter).0, "https://openrouter.ai/"@, 0)
            &&& text::occurs_at(at(BalanceProvider::Novita).0, "https://api.novita.ai/"@, 0)
            &&& at(BalanceProvider::DeepSeek).1 == "CNY"@ && at(BalanceProvider::StepFun).1
                == "CNY"@ && at(BalanceProvider::SiliconFlowCn).1 == "CNY"@
            &&& at(BalanceProvider::SiliconFlowGlobal).1 == "USD"@ && at(
                BalanceProvider::OpenRouter,
            ).1 == "USD"@ && at(BalanceProvider::Novita).1 == "USD"@
        }),
{
    reveal_strlit("https://api.deepseek.com/user/balance");
    reveal_strlit("https://api.deepseek.com/");
    reveal_strlit("https://api.stepfun.com/v1/accounts");
    reveal_strlit("https://api.stepfun.com/");
    reveal_strlit("https://api.siliconflow.cn/v1/user/info");
    reveal_strlit("https://api.siliconflow.cn/");
    reveal_strlit("https://api.siliconflow.com/v1/user/info");
    reveal_strlit("https://api.siliconflow.com/");
    reveal_strlit("https://openrouter.ai/api/v1/credits");
    reveal_strlit("https://openrouter.ai/");
    reveal_strlit("https://api.novita.ai/v3/user/balance");
    reveal_strlit("https://api.novita.ai/");
    assert("https://api.deepseek.com/user/balance"@.subrange(0, 25)
        =~= "https://api.deepseek.com/"@);
    assert("https://api.stepfun.com/v1/accounts"@.subrange(0, 24) =~= "https://api.stepfun.com/"@);
    assert("https://api.siliconflow.cn/v1/user/info"@.subrange(0, 27)
        =~= "https://api.siliconflow.cn/"@);
    assert("https://api.siliconflow.com/v1/user/info"@.subrange(0, 28)
        =~= "https://api.siliconflow.com/"@);
    assert("https://openrouter.ai/api/v1/credits"@.subrange(0, 22) =~= "https://openrouter.ai/"@);
    assert("https://api.novita.ai/v3/user/balance"@.subrange(0, 22) =~= "https://api.novita.ai/"@);
}

/// An address is that of a provider exactly where it holds one of its names,
/// and no provider is named without one.
pub proof fn law_provider_is_named_in_the_address(url: Seq<char>)
    ensures
        ({
            let p = provider_of(url);
            &&& text::occurs_in(url, "api.deepseek.com"@) ==> p == Some(BalanceProvider::DeepSeek)
            &&& p == Some(BalanceProvider::DeepSeek) ==> text::occurs_in(
                url,
                "api.deepseek.com"@,
            )
            &&& p == Some(BalanceProvider::StepFun) ==> text::occurs_in(url, "api.stepfun.ai"@)
                || text::occurs_in(url, "api.stepfun.com"@)
            &&& p == Some(BalanceProvider::SiliconFlowCn) ==> text::occurs_in(
                url,
                "api.siliconflow.cn"@,
            )
            &&& p == Some(BalanceProvider::SiliconFlowGlobal) ==> text::occurs_in(
                url,
                "api.siliconflow.com"@,
            )
            &&& p == Some(BalanceProvider::OpenRouter) ==> text::occurs_in(url, "openrouter.ai"@)
            &&& p == Some(BalanceProvider::Novita) ==> text::occurs_in(url, "api.novita.ai"@)
            &&& p == Some(BalanceProvider::Sub2Api) ==> text::occurs_in(url, "sub2api"@)
            &&& p == Some(BalanceProvider::NewApi) ==> text::occurs_in(url, "new-api"@)
                || text::occurs_in(url, "newapi"@) || text::occurs_in(url, "one-api"@)
            &&& p is None ==> !text::occurs_in(url, "api.stepfun.ai"@) && !text::occurs_in(
                url,
                "api.stepfun.com"@,
            ) && !text::occurs_in(url, "api.siliconflow.cn"@) && !text::occurs_in(
                url,
                "api.siliconflow.com"@,
            ) && !text::occurs_in(url, "openrouter.ai"@) && !text::occurs_in(url, "api.novita.ai"@)
                && !text::occurs_in(url, "sub2api"@) && !text::occurs_in(url, "new-api"@)
                && !text::occurs_in(url, "newapi"@) && !text::occurs_in(url, "one-api"@)
            &&& p != Some(BalanceProvider::Auto) && p != Some(BalanceProvider::Unsupported)
        }),
{
}

/// Of the addresses of a panel the next is asked for which there are
/// credentials: all before it are without.
pub proof fn law_next_address_has_credentials(
    urls: Seq<CommonBalanceUrl>,
    auth: CommonBalanceAuth,
    from: int,
)
    requires
        0 <= from <= urls.len(),
    ensures
        from <= next_with_headers(urls, auth, from) <= urls.len(),
        forall|i: int|
            from <= i < next_with_headers(urls, auth, from) ==> auth.headers(
                (#[trigger] urls[i]).kind,
            ) is None,
        next_with_headers(urls, auth, from) < urls.len() ==> auth.headers(
            urls[next_with_headers(urls, auth, from)].kind,
        ) is Some,
    decreases urls.len() - from,
{
    if from < urls.len() && auth.headers(urls[from].kind) is None {
        law_next_address_has_credentials(urls, auth, from + 1);
    }
}

/// A denial is told with the message beside the data before that of the answer
/// itself, and with a plain one where there is neither.
pub proof fn law_denial_is_told_by_the_data_first(body: JsonView, data: JsonView)
    requires
        denies(body),
        json::field(body, "data"@) == Some(data),
    ensures
        json::string_field(data, "message"@) is Some ==> denial(body) == json::string_field(
            data,
            "message"@,
        ),
        message_in(data) is None && json::string_field(body, "message"@) is Some ==> denial(body)
            == json::string_field(body, "message"@),
        message_in(data) is None && message_in(body) is None ==> denial(body) == Some(
            "balance query failed"@,
        ),
{
    reveal_with_fuel(first_string, 4);
}

/// A snapshot keeps what the answer stated, each amount in its own place.
pub proof fn law_snapshot_keeps_the_amounts(
    s: &BalanceSnapshot,
    upstream_id: Seq<char>,
    provider: BalanceProvider,
    at: i64,
    v: BalanceView,
)
    requires
        records(s, upstream_id, provider, at, v),
    ensures
        s.upstream_id@ == upstream_id,
        s.fetched_at == at,
        s.remaining == v.remaining && s.total == v.total && s.used == v.used,
        s.is_valid == v.is_valid,
        s.unit is Some <==> v.unit is Some,
        s.message is Some <==> v.message is Some,
{
}

} // verus!
