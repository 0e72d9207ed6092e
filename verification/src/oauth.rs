//! Logging in to Codex accounts: the tasks that wait for the user, and the
//! import of credential files.

use crate::clock;
use crate::number;
use crate::text;
use vstd::prelude::*;

verus! {

/// A login that the user confirms on another page.
#[derive(Debug)]
pub struct DeviceFlow {
    pub device_code: String,
    pub user_code: String,
    pub verification_uri: String,
    /// Seconds between two checks.
    pub interval: u64,
    /// Seconds until the code is no longer valid.
    pub expires_in: u64,
}

impl Clone for DeviceFlow {
    fn clone(&self) -> (r: Self)
        ensures
            r == *self,
    {
        DeviceFlow {
            device_code: self.device_code.clone(),
            user_code: self.user_code.clone(),
            verification_uri: self.verification_uri.clone(),
            interval: self.interval,
            expires_in: self.expires_in,
        }
    }
}

/// Whether an account is new.
#[derive(Debug, Clone, Copy, PartialEq, Eq, Structural)]
pub enum OAuthAccountStoreOutcome {
    Created,
    Updated,
}

impl OAuthAccountStoreOutcome {
    /// What was done.
    pub open spec fn name(self) -> Seq<char> {
        match self {
            OAuthAccountStoreOutcome::Created => "已新增"@,
            OAuthAccountStoreOutcome::Updated => "已更新"@,
        }
    }

    /// What was done.
    pub fn action(self) -> (r: &'static str)
        ensures
            r@ == self.name(),
    {
        match self {
            OAuthAccountStoreOutcome::Created => "已新增",
            OAuthAccountStoreOutcome::Updated => "已更新",
        }
    }
}

/// The state of a login.
#[derive(Debug)]
pub enum OAuthLoginTaskState {
    Starting,
    Waiting,
    Polling,
    Succeeded { outcome: OAuthAccountStoreOutcome, upstream_name: String },
    Failed(String),
    Expired,
}

/// What a state is.
pub enum StateView {
    Starting,
    Waiting,
    Polling,
    Succeeded { outcome: OAuthAccountStoreOutcome, upstream_name: Seq<char> },
    Failed(Seq<char>),
    Expired,
}

impl OAuthLoginTaskState {
    /// What the state is.
    pub open spec fn view(&self) -> StateView {
        match self {
            OAuthLoginTaskState::Starting => StateView::Starting,
            OAuthLoginTaskState::Waiting => StateView::Waiting,
            OAuthLoginTaskState::Polling => StateView::Polling,
            OAuthLoginTaskState::Succeeded { outcome, upstream_name } => StateView::Succeeded {
                outcome: *outcome,
                upstream_name: upstream_name@,
            },
            OAuthLoginTaskState::Failed(message) => StateView::Failed(message@),
            OAuthLoginTaskState::Expired => StateView::Expired,
        }
    }

    /// Whether nothing more happens to the login by itself.
    pub fn is_terminal(&self) -> (r: bool)
        ensures
            r == self@.ended(),
    {
        match self {
            OAuthLoginTaskState::Succeeded { .. } => true,
            OAuthLoginTaskState::Failed(_) => true,
            OAuthLoginTaskState::Expired => true,
            _ => false,
        }
    }

    /// Whether the user is waited for.
    pub fn is_waiting(&self) -> (r: bool)
        ensures
            r == (self@ == StateView::Waiting),
    {
        match self {
            OAuthLoginTaskState::Waiting => true,
            _ => false,
        }
    }

    /// Whether the login can be started again.
    pub fn can_retry(&self) -> (r: bool)
        ensures
            r == (self@ is Failed || self@ is Expired),
    {
        match self {
            OAuthLoginTaskState::Failed(_) => true,
            OAuthLoginTaskState::Expired => true,
            _ => false,
        }
    }

    /// Whether the login can be removed: not while it is checked.
    pub fn can_remove(&self) -> (r: bool)
        ensures
            r == !(self@ is Polling),
    {
        match self {
            OAuthLoginTaskState::Polling => false,
            _ => true,
        }
    }
}

impl StateView {
    /// Whether nothing more happens to the login by itself.
    pub open spec fn ended(self) -> bool {
        self is Succeeded || self is Failed || self is Expired
    }
}

/// A login. Times are readings of the monotonic clock, in nanoseconds.
#[derive(Debug)]
pub struct OAuthLoginTask {
    pub id: String,
    pub state: OAuthLoginTaskState,
    pub flow: Option<DeviceFlow>,
    pub expires_at: Option<u128>,
    pub next_poll_at: Option<u128>,
    pub warning: Option<String>,
}

/// What a login is.
pub struct TaskView {
    pub id: Seq<char>,
    pub state: StateView,
    pub flow: Option<DeviceFlow>,
    pub expires_at: Option<u128>,
    pub next_poll_at: Option<u128>,
    pub warning: Option<Seq<char>>,
}

impl OAuthLoginTask {
    /// What the login is.
    pub open spec fn view(&self) -> TaskView {
        TaskView {
            id: self.id@,
            state: self.state@,
            flow: self.flow,
            expires_at: self.expires_at,
            next_poll_at: self.next_poll_at,
            warning: text::opt_view(self.warning),
        }
    }
}

/// What logins are.
pub open spec fn tasks_of(tasks: Seq<OAuthLoginTask>) -> Seq<TaskView> {
    tasks.map_values(|t: OAuthLoginTask| t@)
}

/// The place of the first login of an identifier, from some place on.
pub open spec fn task_place(tasks: Seq<TaskView>, id: Seq<char>, from: int) -> Option<int>
    decreases tasks.len() - from,
{
    if from < 0 || from >= tasks.len() {
        None
    } else if tasks[from].id == id {
        Some(from)
    } else {
        task_place(tasks, id, from + 1)
    }
}

proof fn lemma_task_place(tasks: Seq<TaskView>, id: Seq<char>, from: int)
    requires
        0 <= from,
    ensures
        task_place(tasks, id, from) matches Some(i) ==> from <= i < tasks.len() && tasks[i].id
            == id,
    decreases tasks.len() - from,
{
    if from < tasks.len() {
        lemma_task_place(tasks, id, from + 1);
    }
}

fn find_task(tasks: &Vec<OAuthLoginTask>, id: &str) -> (r: Option<usize>)
    ensures
        match (r, task_place(tasks_of(tasks@), id@, 0)) {
            (Some(i), Some(j)) => i == j && i < tasks@.len(),
            (None, None) => true,
            _ => false,
        },
{
    let mut i: usize = 0;
    while i < tasks.len()
        invariant
            i <= tasks@.len(),
            task_place(tasks_of(tasks@), id@, 0) == task_place(tasks_of(tasks@), id@, i as int),
        decreases tasks@.len() - i,
    {
        if text::same(tasks[i].id.as_str(), id) {
            return Some(i);
        }
        i = i + 1;
    }
    None
}

/// A login at its start.
pub open spec fn starting(id: Seq<char>) -> TaskView {
    TaskView {
        id,
        state: StateView::Starting,
        flow: None,
        expires_at: None,
        next_poll_at: None,
        warning: None,
    }
}

/// Adds a login with a given identifier.
pub fn add_oauth_task(tasks: &mut Vec<OAuthLoginTask>, id: String)
    ensures
        tasks_of(final(tasks)@) == tasks_of(old(tasks)@).push(starting(id@)),
{
    tasks.push(
        OAuthLoginTask {
            id,
            state: OAuthLoginTaskState::Starting,
            flow: None,
            expires_at: None,
            next_poll_at: None,
            warning: None,
        },
    );
    proof {
        assert(tasks_of(tasks@) =~= tasks_of(old(tasks)@).push(starting(id@)));
    }
}

/// Adds a login with a fresh identifier, which is returned: the login is then
/// to be started.
pub fn start_oauth_task(tasks: &mut Vec<OAuthLoginTask>) -> (r: String)
    ensures
        r@.len() == 36,
        text::is_ascii_text(r@),
        tasks_of(final(tasks)@) == tasks_of(old(tasks)@).push(starting(r@)),
{
    let id: String = clock::new_uuid();
    add_oauth_task(tasks, id.clone());
    id
}

/// Logins with the one of an identifier replaced.
pub open spec fn replaced(tasks: Seq<TaskView>, id: Seq<char>, task: TaskView) -> Seq<TaskView> {
    match task_place(tasks, id, 0) {
        Some(i) => tasks.update(i, task),
        None => tasks,
    }
}

/// Puts a login back to its start; whether there is one, and it is then to be
/// started.
pub fn restart_oauth_task(tasks: &mut Vec<OAuthLoginTask>, id: &str) -> (r: bool)
    ensures
        r == task_place(tasks_of(old(tasks)@), id@, 0) is Some,
        tasks_of(final(tasks)@) == replaced(tasks_of(old(tasks)@), id@, starting(id@)),
{
    match find_task(tasks, id) {
        Some(i) => {
            proof {
                lemma_task_place(tasks_of(tasks@), id@, 0);
            }
            let task: &mut OAuthLoginTask = &mut tasks[i];
            task.state = OAuthLoginTaskState::Starting;
            task.flow = None;
            task.expires_at = None;
            task.next_poll_at = None;
            task.warning = None;
            proof {
                assert(tasks_of(tasks@) =~= replaced(tasks_of(old(tasks)@), id@, starting(id@)));
            }
            true
        },
        None => false,
    }
}

/// Whether the monotonic clock reaches some seconds from now.
pub open spec fn reaches(now: u128, seconds: int) -> bool {
    now + seconds * 1_000_000_000 < 9_223_372_036_854_775_808_000_000_000
}

/// The seconds between two checks: at least one.
pub open spec fn poll_interval(interval: u64) -> int {
    if interval >= 1 {
        interval as int
    } else {
        1
    }
}

/// A login whose code has come.
pub open spec fn begun(task: TaskView, flow: DeviceFlow, now: u128) -> TaskView {
    TaskView {
        state: StateView::Waiting,
        flow: Some(flow),
        expires_at: Some((now + flow.expires_in * 1_000_000_000) as u128),
        next_poll_at: Some((now + poll_interval(flow.interval) * 1_000_000_000) as u128),
        warning: None,
        ..task
    }
}

fn later(now: u128, seconds: u64) -> (r: u128)
    requires
        reaches(now, seconds as int),
    ensures
        r == now + seconds * 1_000_000_000,
{
    now + seconds as u128 * 1_000_000_000
}

fn at_least_one(seconds: u64) -> (r: u64)
    ensures
        r == poll_interval(seconds),
{
    if seconds >= 1 {
        seconds
    } else {
        1
    }
}

/// Takes in the start of a login at some time, and says what came of it; a
/// login that is gone is passed over.
pub fn handle_oauth_started(
    tasks: &mut Vec<OAuthLoginTask>,
    id: &str,
    result: Result<DeviceFlow, String>,
    now: u128,
) -> (r: Option<String>)
    requires
        result matches Ok(flow) ==> reaches(now, flow.expires_in as int) && reaches(
            now,
            poll_interval(flow.interval),
        ),
    ensures
        match task_place(tasks_of(old(tasks)@), id@, 0) {
            Some(i) => match result {
                Ok(flow) => text::opt_view(r) == Some("OAuth 登录任务已创建"@) && tasks_of(
                    final(tasks)@,
                ) == tasks_of(old(tasks)@).update(i, begun(tasks_of(old(tasks)@)[i], flow, now)),
                Err(message) => text::opt_view(r) == Some("OAuth 启动失败: "@ + message@)
                    && tasks_of(final(tasks)@) == tasks_of(old(tasks)@).update(
                    i,
                    TaskView {
                        state: StateView::Failed(message@),
                        ..tasks_of(old(tasks)@)[i]
                    },
                ),
            },
            None => r is None && final(tasks)@ == old(tasks)@,
        },
{
    let ghost before = tasks_of(tasks@);
    let i: usize = match find_task(tasks, id) {
        Some(i) => i,
        None => {
            return None;
        },
    };
    match result {
        Ok(flow) => {
            let expires_at: u128 = later(now, flow.expires_in);
            let next_poll_at: u128 = later(now, at_least_one(flow.interval));
            let task: &mut OAuthLoginTask = &mut tasks[i];
            task.expires_at = Some(expires_at);
            task.next_poll_at = Some(next_poll_at);
            task.flow = Some(flow);
            task.warning = None;
            task.state = OAuthLoginTaskState::Waiting;
            proof {
                assert(tasks_of(tasks@) =~= before.update(
                    i as int,
                    begun(before[i as int], flow, now),
                ));
            }
            Some("OAuth 登录任务已创建".to_string())
        },
        Err(message) => {
            let status: String = text::concat("OAuth 启动失败: ", message.as_str());
            let task: &mut OAuthLoginTask = &mut tasks[i];
            task.state = OAuthLoginTaskState::Failed(message);
            proof {
                assert(tasks_of(tasks@) =~= before.update(
                    i as int,
                    TaskView { state: StateView::Failed(message@), ..before[i as int] },
                ));
            }
            Some(status)
        },
    }
}

/// What came of a check.
#[derive(Debug)]
pub enum OAuthPollTaskResult {
    Pending,
    RetryableError(String),
    Expired,
    Stored { outcome: OAuthAccountStoreOutcome, upstream_name: String },
    /// The check itself failed.
    Broken(String),
}

/// The seconds until a login is checked again.
pub open spec fn next_interval(task: TaskView) -> int {
    match task.flow {
        Some(flow) => poll_interval(flow.interval),
        None => 5,
    }
}

/// A login after it was checked at some time.
pub open spec fn after_poll(task: TaskView, result: OAuthPollTaskResult, now: u128) -> TaskView {
    let next = Some((now + next_interval(task) * 1_000_000_000) as u128);
    match result {
        OAuthPollTaskResult::Pending => TaskView {
            state: StateView::Waiting,
            warning: None,
            next_poll_at: next,
            ..task
        },
        OAuthPollTaskResult::RetryableError(message) => TaskView {
            state: StateView::Waiting,
            warning: Some(message@),
            next_poll_at: next,
            ..task
        },
        OAuthPollTaskResult::Expired => TaskView {
            state: StateView::Expired,
            next_poll_at: None,
            ..task
        },
        OAuthPollTaskResult::Stored { outcome, upstream_name } => TaskView {
            state: StateView::Succeeded { outcome, upstream_name: upstream_name@ },
            warning: None,
            next_poll_at: None,
            ..task
        },
        OAuthPollTaskResult::Broken(message) => TaskView {
            state: StateView::Failed(message@),
            next_poll_at: None,
            ..task
        },
    }
}

/// What is said after a check.
pub open spec fn poll_text(result: OAuthPollTaskResult) -> Seq<char> {
    match result {
        OAuthPollTaskResult::Pending => "等待 OAuth 授权"@,
        OAuthPollTaskResult::RetryableError(_) => "OAuth 轮询暂时失败, 将自动重试"@,
        OAuthPollTaskResult::Expired => "OAuth 用户码已过期"@,
        OAuthPollTaskResult::Stored { outcome, upstream_name } => "OAuth 账号"@ + outcome.name()
            + ": "@ + upstream_name@,
        OAuthPollTaskResult::Broken(message) => "OAuth 轮询失败: "@ + message@,
    }
}

fn poll_status(result: &OAuthPollTaskResult) -> (r: String)
    ensures
        r@ == poll_text(*result),
{
    match result {
        OAuthPollTaskResult::Pending => "等待 OAuth 授权".to_string(),
        OAuthPollTaskResult::RetryableError(_) => {
            "OAuth 轮询暂时失败, 将自动重试".to_string()
        },
        OAuthPollTaskResult::Expired => "OAuth 用户码已过期".to_string(),
        OAuthPollTaskResult::Stored { outcome, upstream_name } => text::concat4(
            "OAuth 账号",
            outcome.action(),
            ": ",
            upstream_name.as_str(),
        ),
        OAuthPollTaskResult::Broken(message) => text::concat(
            "OAuth 轮询失败: ",
            message.as_str(),
        ),
    }
}

fn apply_poll(task: &mut OAuthLoginTask, result: OAuthPollTaskResult, next: u128, now: u128)
    requires
        next == now + next_interval(old(task)@) * 1_000_000_000,
    ensures
        final(task)@ == after_poll(old(task)@, result, now),
{
    match result {
        OAuthPollTaskResult::Pending => {
            task.state = OAuthLoginTaskState::Waiting;
            task.warning = None;
            task.next_poll_at = Some(next);
        },
        OAuthPollTaskResult::RetryableError(message) => {
            task.state = OAuthLoginTaskState::Waiting;
            task.warning = Some(message);
            task.next_poll_at = Some(next);
        },
        OAuthPollTaskResult::Expired => {
            task.state = OAuthLoginTaskState::Expired;
            task.next_poll_at = None;
        },
        OAuthPollTaskResult::Stored { outcome, upstream_name } => {
            task.state = OAuthLoginTaskState::Succeeded { outcome, upstream_name };
            task.warning = None;
            task.next_poll_at = None;
        },
        OAuthPollTaskResult::Broken(message) => {
            task.state = OAuthLoginTaskState::Failed(message);
            task.next_poll_at = None;
        },
    }
}

/// Takes in what came of a check at some time, and says so; a login that is
/// gone is passed over.
pub fn handle_oauth_polled(
    tasks: &mut Vec<OAuthLoginTask>,
    id: &str,
    result: OAuthPollTaskResult,
    now: u128,
) -> (r: Option<String>)
    requires
        task_place(tasks_of(old(tasks)@), id@, 0) matches Some(i) ==> reaches(
            now,
            next_interval(tasks_of(old(tasks)@)[i]),
        ),
    ensures
        match task_place(tasks_of(old(tasks)@), id@, 0) {
            Some(i) => text::opt_view(r) == Some(poll_text(result)) && tasks_of(final(tasks)@)
                == tasks_of(old(tasks)@).update(
                i,
                after_poll(tasks_of(old(tasks)@)[i], result, now),
            ),
            None => r is None && final(tasks)@ == old(tasks)@,
        },
{
    let ghost before = tasks_of(tasks@);
    let i: usize = match find_task(tasks, id) {
        Some(i) => i,
        None => {
            return None;
        },
    };
    let seconds: u64 = match &tasks[i].flow {
        Some(flow) => at_least_one(flow.interval),
        None => 5,
    };
    let next: u128 = later(now, seconds);
    let status: String = poll_status(&result);
    apply_poll(&mut tasks[i], result, next, now);
    proof {
        assert(tasks_of(tasks@) =~= before.update(
            i as int,
            after_poll(before[i as int], result, now),
        ));
    }
    Some(status)
}

/// A login that is checked: where its code is missing it fails, and where it
/// does not wait nothing happens.
pub open spec fn polled(task: TaskView) -> TaskView {
    if task.state != StateView::Waiting {
        task
    } else if task.flow is None {
        TaskView { state: StateView::Failed("missing device flow"@), ..task }
    } else {
        TaskView { state: StateView::Polling, next_poll_at: None, ..task }
    }
}

/// The code with which a login is checked, where it is.
pub open spec fn poll_request(task: TaskView) -> Option<DeviceFlow> {
    if task.state != StateView::Waiting {
        None
    } else {
        task.flow
    }
}

/// The logins once that of an identifier is checked.
pub open spec fn with_polled(tasks: Seq<TaskView>, id: Seq<char>) -> Seq<TaskView> {
    match task_place(tasks, id, 0) {
        Some(i) => tasks.update(i, polled(tasks[i])),
        None => tasks,
    }
}

/// The code with which the login of an identifier is checked, where it is.
pub open spec fn request_of(tasks: Seq<TaskView>, id: Seq<char>) -> Option<DeviceFlow> {
    match task_place(tasks, id, 0) {
        Some(i) => poll_request(tasks[i]),
        None => None,
    }
}

/// Begins to check a login, and gives the code to check it with.
pub fn poll_oauth_task(tasks: &mut Vec<OAuthLoginTask>, id: &str) -> (r: Option<DeviceFlow>)
    ensures
        tasks_of(final(tasks)@) == with_polled(tasks_of(old(tasks)@), id@),
        r == request_of(tasks_of(old(tasks)@), id@),
{
    let ghost before = tasks_of(tasks@);
    let i: usize = match find_task(tasks, id) {
        Some(i) => i,
        None => {
            return None;
        },
    };
    let waiting: bool = tasks[i].state.is_waiting();
    if !waiting {
        proof {
            assert(before.update(i as int, before[i as int]) =~= before);
        }
        return None;
    }
    let flow: Option<DeviceFlow> = match &tasks[i].flow {
        Some(flow) => Some(flow.clone()),
        None => None,
    };
    let task: &mut OAuthLoginTask = &mut tasks[i];
    if flow.is_none() {
        task.state = OAuthLoginTaskState::Failed("missing device flow".to_string());
    } else {
        task.state = OAuthLoginTaskState::Polling;
        task.next_poll_at = None;
    }
    proof {
        assert(tasks_of(tasks@) =~= before.update(i as int, polled(before[i as int])));
    }
    flow
}

/// A login at some time: one that still waits after its code ran out has
/// expired.
pub open spec fn settled(task: TaskView, now: u128) -> TaskView {
    if task.state == StateView::Waiting && (task.expires_at matches Some(at) && now >= at) {
        TaskView { state: StateView::Expired, next_poll_at: None, ..task }
    } else {
        task
    }
}

/// Whether a login is to be checked at some time.
pub open spec fn is_due(task: TaskView, now: u128) -> bool {
    task.state == StateView::Waiting && (task.next_poll_at matches Some(at) && now >= at)
}

/// The identifiers of the logins that are to be checked.
pub open spec fn due_ids(tasks: Seq<TaskView>, now: u128) -> Seq<Seq<char>>
    decreases tasks.len(),
{
    if tasks.len() == 0 {
        Seq::empty()
    } else {
        let rest = due_ids(tasks.drop_last(), now);
        if is_due(tasks.last(), now) {
            rest.push(tasks.last().id)
        } else {
            rest
        }
    }
}

/// The logins once those of some identifiers are checked, one after the other,
/// and the codes to check them with.
pub open spec fn polled_all(tasks: Seq<TaskView>, ids: Seq<Seq<char>>) -> (
    Seq<TaskView>,
    Seq<(Seq<char>, DeviceFlow)>,
)
    decreases ids.len(),
{
    if ids.len() == 0 {
        (tasks, Seq::empty())
    } else {
        let (before, requests) = polled_all(tasks, ids.drop_last());
        (
            with_polled(before, ids.last()),
            match request_of(before, ids.last()) {
                Some(flow) => requests.push((ids.last(), flow)),
                None => requests,
            },
        )
    }
}

/// What checks are asked for.
pub open spec fn requests_of(requests: Seq<(String, DeviceFlow)>) -> Seq<(Seq<char>, DeviceFlow)> {
    requests.map_values(|q: (String, DeviceFlow)| (q.0@, q.1))
}

fn expire_tasks(tasks: &mut Vec<OAuthLoginTask>, now: u128)
    ensures
        tasks_of(final(tasks)@) == tasks_of(old(tasks)@).map_values(|t: TaskView| settled(t, now)),
{
    let ghost before = tasks_of(tasks@);
    let ghost wanted = before.map_values(|t: TaskView| settled(t, now));
    let mut i: usize = 0;
    while i < tasks.len()
        invariant
            i <= tasks@.len(),
            tasks@.len() == before.len(),
            wanted == before.map_values(|t: TaskView| settled(t, now)),
            forall|j: int| 0 <= j < i ==> (#[trigger] tasks@[j])@ == wanted[j],
            forall|j: int| i <= j < tasks@.len() ==> (#[trigger] tasks@[j])@ == before[j],
        decreases tasks@.len() - i,
    {
        let waiting: bool = tasks[i].state.is_waiting();
        let over: bool = match tasks[i].expires_at {
            Some(at) => now >= at,
            None => false,
        };
        if waiting && over {
            let task: &mut OAuthLoginTask = &mut tasks[i];
            task.state = OAuthLoginTaskState::Expired;
            task.next_poll_at = None;
        }
        i = i + 1;
    }
    proof {
        assert(tasks_of(tasks@) =~= wanted);
    }
}

fn due_tasks(tasks: &Vec<OAuthLoginTask>, now: u128) -> (r: Vec<String>)
    ensures
        r@.map_values(|id: String| id@) == due_ids(tasks_of(tasks@), now),
{
    let ghost views = tasks_of(tasks@);
    let mut ids: Vec<String> = Vec::new();
    let mut i: usize = 0;
    proof {
        assert(ids@.map_values(|id: String| id@) =~= due_ids(views.take(0), now));
    }
    while i < tasks.len()
        invariant
            i <= tasks@.len(),
            views == tasks_of(tasks@),
            ids@.map_values(|id: String| id@) == due_ids(views.take(i as int), now),
        decreases tasks@.len() - i,
    {
        let ghost before = ids@;
        proof {
            let longer = views.take(i as int + 1);
            assert(longer.drop_last() =~= views.take(i as int));
            assert(longer.last() == tasks@[i as int]@);
        }
        let waiting: bool = tasks[i].state.is_waiting();
        let now_due: bool = match tasks[i].next_poll_at {
            Some(at) => now >= at,
            None => false,
        };
        if waiting && now_due {
            ids.push(tasks[i].id.clone());
            proof {
                assert(ids@.map_values(|id: String| id@) =~= before.map_values(
                    |id: String| id@,
                ).push(tasks@[i as int].id@));
            }
        }
        i = i + 1;
    }
    proof {
        assert(views.take(views.len() as int) =~= views);
    }
    ids
}

/// The logins at some time: those whose code ran out expire, and the others
/// that are to be checked are; the codes to check them with are given.
pub fn drive_oauth_tasks(tasks: &mut Vec<OAuthLoginTask>, now: u128) -> (r: Vec<
    (String, DeviceFlow),
>)
    ensures
        ({
            let live = tasks_of(old(tasks)@).map_values(|t: TaskView| settled(t, now));
            let (after, requests) = polled_all(live, due_ids(live, now));
            tasks_of(final(tasks)@) == after && requests_of(r@) == requests
        }),
{
    expire_tasks(tasks, now);
    let ghost live = tasks_of(tasks@);
    let ids: Vec<String> = due_tasks(tasks, now);
    let ghost all = ids@.map_values(|id: String| id@);
    let mut requests: Vec<(String, DeviceFlow)> = Vec::new();
    let mut i: usize = 0;
    proof {
        assert(all.take(0) =~= Seq::empty());
        assert(requests_of(requests@) =~= Seq::empty());
    }
    while i < ids.len()
        invariant
            i <= ids@.len(),
            all == ids@.map_values(|id: String| id@),
            (tasks_of(tasks@), requests_of(requests@)) == polled_all(live, all.take(i as int)),
        decreases ids@.len() - i,
    {
        let ghost before = requests@;
        proof {
            let longer = all.take(i as int + 1);
            assert(longer.drop_last() =~= all.take(i as int));
            assert(longer.last() == ids@[i as int]@);
        }
        match poll_oauth_task(tasks, ids[i].as_str()) {
            Some(flow) => {
                requests.push((ids[i].clone(), flow));
                proof {
                    assert(requests_of(requests@) =~= requests_of(before).push(
                        (ids@[i as int]@, flow),
                    ));
                }
            },
            None => {},
        }
        i = i + 1;
    }
    proof {
        assert(all.take(all.len() as int) =~= all);
    }
    requests
}

proof fn lemma_polled_all_keeps_expiry(tasks: Seq<TaskView>, ids: Seq<Seq<char>>, i: int)
    requires
        0 <= i < tasks.len(),
    ensures
        polled_all(tasks, ids).0.len() == tasks.len(),
        polled_all(tasks, ids).0[i].expires_at == tasks[i].expires_at,
        polled_all(tasks, ids).0[i].state == StateView::Waiting ==> tasks[i].state
            == StateView::Waiting,
    decreases ids.len(),
{
    if ids.len() > 0 {
        lemma_polled_all_keeps_expiry(tasks, ids.drop_last(), i);
        lemma_task_place(polled_all(tasks, ids.drop_last()).0, ids.last(), 0);
    }
}

/// Once the logins were looked at, none waits whose code ran out.
pub proof fn law_no_expired_login_waits(tasks: Seq<TaskView>, now: u128, i: int)
    requires
        0 <= i < tasks.len(),
    ensures
        ({
            let live = tasks.map_values(|t: TaskView| settled(t, now));
            let after = polled_all(live, due_ids(live, now)).0;
            after.len() == tasks.len() && (after[i].state == StateView::Waiting ==> (
            after[i].expires_at matches Some(at) ==> now < at))
        }),
{
    let live = tasks.map_values(|t: TaskView| settled(t, now));
    lemma_polled_all_keeps_expiry(live, due_ids(live, now), i);
}

/// A check touches no login but the one that it is for.
pub proof fn law_logins_are_independent(tasks: Seq<TaskView>, id: Seq<char>, i: int)
    requires
        0 <= i < tasks.len(),
        tasks[i].id != id,
    ensures
        with_polled(tasks, id).len() == tasks.len(),
        with_polled(tasks, id)[i] == tasks[i],
{
    lemma_task_place(tasks, id, 0);
}

/// The logins that still run.
pub open spec fn running(tasks: Seq<TaskView>) -> Seq<TaskView> {
    tasks.filter(|t: TaskView| !t.state.ended())
}

/// Forgets the logins that have ended.
pub fn clear_finished(tasks: &mut Vec<OAuthLoginTask>)
    ensures
        tasks_of(final(tasks)@) == running(tasks_of(old(tasks)@)),
{
    let ghost views = tasks_of(tasks@);
    let ghost keeps = |t: TaskView| !t.state.ended();
    let mut i: usize = tasks.len();
    proof {
        assert(views.take(i as int) =~= views);
        assert(tasks_of(tasks@).skip(i as int) =~= Seq::empty());
        assert(views.take(i as int).filter(keeps) + Seq::<TaskView>::empty() =~= views.filter(
            keeps,
        ));
    }
    while i > 0
        invariant
            i <= views.len(),
            i <= tasks@.len(),
            keeps == (|t: TaskView| !t.state.ended()),
            tasks_of(tasks@).take(i as int) == views.take(i as int),
            views.filter(keeps) == views.take(i as int).filter(keeps) + tasks_of(tasks@).skip(
                i as int,
            ),
        decreases i,
    {
        let ghost before = tasks_of(tasks@);
        i = i - 1;
        proof {
            let longer = views.take(i as int + 1);
            assert(longer.drop_last() =~= views.take(i as int));
            assert(before[i as int] == before.take(i as int + 1)[i as int]);
            assert(longer.last() == tasks@[i as int]@);
            reveal(Seq::filter);
        }
        if tasks[i].state.is_terminal() {
            tasks.remove(i);
            proof {
                assert(tasks_of(tasks@).skip(i as int) =~= before.skip(i as int + 1));
                assert(tasks_of(tasks@).take(i as int) =~= views.take(i as int)) by {
                    assert forall|j: int| 0 <= j < i implies tasks_of(tasks@).take(i as int)[j]
                        == views.take(i as int)[j] by {
                        assert(before.take(i as int + 1)[j] == views.take(i as int + 1)[j]);
                    }
                }
            }
        } else {
            proof {
                assert(before.skip(i as int) =~= seq![before[i as int]] + before.skip(
                    i as int + 1,
                ));
                assert(views.take(i as int).filter(keeps).push(before[i as int]) + before.skip(
                    i as int + 1,
                ) =~= views.take(i as int).filter(keeps) + before.skip(i as int));
                assert(before.take(i as int) =~= views.take(i as int)) by {
                    assert forall|j: int| 0 <= j < i implies before.take(i as int)[j]
                        == views.take(i as int)[j] by {
                        assert(before.take(i as int + 1)[j] == views.take(i as int + 1)[j]);
                    }
                }
            }
        }
    }
    proof {
        assert(views.take(0) =~= Seq::empty());
        reveal(Seq::filter);
        assert(tasks_of(tasks@).skip(0) =~= tasks_of(tasks@));
        assert(views.filter(keeps) =~= tasks_of(tasks@));
    }
}

/// Forgets the logins of an identifier.
pub fn remove_task(tasks: &mut Vec<OAuthLoginTask>, id: &str)
    ensures
        tasks_of(final(tasks)@) == tasks_of(old(tasks)@).filter(|t: TaskView| t.id != id@),
{
    let ghost views = tasks_of(tasks@);
    let ghost keeps = |t: TaskView| t.id != id@;
    let mut i: usize = tasks.len();
    proof {
        assert(views.take(i as int) =~= views);
        assert(tasks_of(tasks@).skip(i as int) =~= Seq::empty());
        assert(views.take(i as int).filter(keeps) + Seq::<TaskView>::empty() =~= views.filter(
            keeps,
        ));
    }
    while i > 0
        invariant
            i <= views.len(),
            i <= tasks@.len(),
            keeps == (|t: TaskView| t.id != id@),
            tasks_of(tasks@).take(i as int) == views.take(i as int),
            views.filter(keeps) == views.take(i as int).filter(keeps) + tasks_of(tasks@).skip(
                i as int,
            ),
        decreases i,
    {
        let ghost before = tasks_of(tasks@);
        i = i - 1;
        proof {
            let longer = views.take(i as int + 1);
            assert(longer.drop_last() =~= views.take(i as int));
            assert(before[i as int] == before.take(i as int + 1)[i as int]);
            assert(longer.last() == tasks@[i as int]@);
            reveal(Seq::filter);
        }
        if text::same(tasks[i].id.as_str(), id) {
            tasks.remove(i);
            proof {
                assert(tasks_of(tasks@).skip(i as int) =~= before.skip(i as int + 1));
                assert(tasks_of(tasks@).take(i as int) =~= views.take(i as int)) by {
                    assert forall|j: int| 0 <= j < i implies tasks_of(tasks@).take(i as int)[j]
                        == views.take(i as int)[j] by {
                        assert(before.take(i as int + 1)[j] == views.take(i as int + 1)[j]);
                    }
                }
            }
        } else {
            proof {
                assert(before.skip(i as int) =~= seq![before[i as int]] + before.skip(
                    i as int + 1,
                ));
                assert(views.take(i as int).filter(keeps).push(before[i as int]) + before.skip(
                    i as int + 1,
                ) =~= views.take(i as int).filter(keeps) + before.skip(i as int));
                assert(before.take(i as int) =~= views.take(i as int)) by {
                    assert forall|j: int| 0 <= j < i implies before.take(i as int)[j]
                        == views.take(i as int)[j] by {
                        assert(before.take(i as int + 1)[j] == views.take(i as int + 1)[j]);
                    }
                }
            }
        }
    }
    proof {
        assert(views.take(0) =~= Seq::empty());
        reveal(Seq::filter);
        assert(tasks_of(tasks@).skip(0) =~= tasks_of(tasks@));
        assert(views.filter(keeps) =~= tasks_of(tasks@));
    }
}

/// The heading of a login: by the code that the user types, or by the start of
/// its identifier.
pub fn oauth_task_title(task: &OAuthLoginTask) -> (r: String)
    requires
        task.flow is None ==> text::can_cut(task.id@, 8),
    ensures
        r@ == "登录任务 "@ + match task.flow {
            Some(flow) => flow.user_code@,
            None => text::bytes_before(task.id@, 8),
        },
{
    match &task.flow {
        Some(flow) => text::concat("登录任务 ", flow.user_code.as_str()),
        None => {
            let parts: (&str, &str) = text::cut(task.id.as_str(), 8);
            text::concat("登录任务 ", parts.0)
        },
    }
}

/// What is shown of a state.
pub fn oauth_task_status(state: &OAuthLoginTaskState) -> (r: String)
    ensures
        r@ == match state@ {
            StateView::Starting => "正在创建"@,
            StateView::Waiting => "等待授权"@,
            StateView::Polling => "正在检查"@,
            StateView::Succeeded { outcome, upstream_name } => outcome.name() + ": "@
                + upstream_name,
            StateView::Failed(message) => "失败: "@ + message,
            StateView::Expired => "已过期"@,
        },
{
    match state {
        OAuthLoginTaskState::Starting => "正在创建".to_string(),
        OAuthLoginTaskState::Waiting => "等待授权".to_string(),
        OAuthLoginTaskState::Polling => "正在检查".to_string(),
        OAuthLoginTaskState::Succeeded { outcome, upstream_name } => text::concat3(
            outcome.action(),
            ": ",
            upstream_name.as_str(),
        ),
        OAuthLoginTaskState::Failed(message) => text::concat("失败: ", message.as_str()),
        OAuthLoginTaskState::Expired => "已过期".to_string(),
    }
}

/// What came of one credential file.
#[derive(Debug)]
pub enum OAuthFileImportOutcome {
    Created { upstream_id: String, name: String, refreshable: bool },
    Updated { upstream_id: String, name: String, refreshable: bool },
    Failed { message: String },
}

/// A credential file and what came of it.
#[derive(Debug)]
pub struct OAuthFileImportItem {
    pub source: String,
    pub outcome: OAuthFileImportOutcome,
}

/// How many files came to what.
#[derive(Debug, Clone, Copy, PartialEq, Eq, Structural)]
pub struct OAuthImportBatchResult {
    pub created: usize,
    pub updated: usize,
    pub failed: usize,
}

/// An import of credential files.
#[derive(Debug)]
pub struct OAuthImportBatch {
    pub id: String,
    pub processed: usize,
    pub total: usize,
    pub items: Vec<OAuthFileImportItem>,
    pub result: Option<OAuthImportBatchResult>,
}

/// An import of some files at its start.
pub fn new_batch(id: String, total: usize) -> (r: OAuthImportBatch)
    ensures
        r.id == id,
        r.processed == 0,
        r.total == total,
        r.items@.len() == 0,
        r.result is None,
{
    OAuthImportBatch { id, processed: 0, total, items: Vec::new(), result: None }
}

/// An import of some files at its start, with a fresh identifier.
pub fn start_batch(total: usize) -> (r: OAuthImportBatch)
    ensures
        r.id@.len() == 36,
        r.processed == 0,
        r.total == total,
        r.items@.len() == 0,
        r.result is None,
{
    new_batch(clock::new_uuid(), total)
}

/// What is said at the start of an import.
pub fn batch_start_status(total: usize) -> (r: String)
    ensures
        r@ == "准备导入 "@ + number::nat_text(total as nat) + " 个 OAuth 凭据文件"@,
{
    text::concat3("准备导入 ", number::usize_text(total).as_str(), " 个 OAuth 凭据文件")
}

/// Whether an import still runs.
pub fn import_pending(batch: &Option<OAuthImportBatch>) -> (r: bool)
    ensures
        r == (*batch matches Some(b) && b.result is None),
{
    match batch {
        Some(b) => b.result.is_none(),
        None => false,
    }
}

/// Whether an import has ended and can be forgotten.
pub fn import_finished(batch: &Option<OAuthImportBatch>) -> (r: bool)
    ensures
        r == (*batch matches Some(b) && b.result is Some),
{
    match batch {
        Some(b) => b.result.is_some(),
        None => false,
    }
}

/// Whether there is anything that has ended: a login or an import.
pub fn has_finished(tasks: &Vec<OAuthLoginTask>, batch: &Option<OAuthImportBatch>) -> (r: bool)
    ensures
        r == ((exists|i: int| 0 <= i < tasks@.len() && (#[trigger] tasks@[i]).state@.ended()) || (
        *batch matches Some(b) && b.result is Some)),
{
    let mut i: usize = 0;
    while i < tasks.len()
        invariant
            i <= tasks@.len(),
            forall|j: int| 0 <= j < i ==> !(#[trigger] tasks@[j]).state@.ended(),
        decreases tasks@.len() - i,
    {
        if tasks[i].state.is_terminal() {
            assert(tasks@[i as int].state@.ended());
            return true;
        }
        i = i + 1;
    }
    import_finished(batch)
}

/// Takes in what came of one more file, and says how far the import is; what
/// belongs to another import is passed over.
pub fn handle_oauth_import_progress(
    batch: &mut OAuthImportBatch,
    batch_id: &str,
    processed: usize,
    total: usize,
    item: OAuthFileImportItem,
) -> (r: Option<String>)
    ensures
        if old(batch).id@ == batch_id@ {
            &&& text::opt_view(r) == Some(
                "正在导入 OAuth 账号: "@ + number::nat_text(processed as nat) + "/"@
                    + number::nat_text(total as nat),
            )
            &&& final(batch).items@ == old(batch).items@.push(item)
            &&& *final(batch) == (OAuthImportBatch {
                processed,
                total,
                items: final(batch).items,
                ..*old(batch)
            })
        } else {
            r is None && *final(batch) == *old(batch)
        },
{
    if !text::same(batch.id.as_str(), batch_id) {
        return None;
    }
    batch.processed = processed;
    batch.total = total;
    batch.items.push(item);
    Some(
        text::concat4(
            "正在导入 OAuth 账号: ",
            number::usize_text(processed).as_str(),
            "/",
            number::usize_text(total).as_str(),
        ),
    )
}

/// How many files came to what.
pub open spec fn counts(result: OAuthImportBatchResult) -> Seq<char> {
    "新增 "@ + number::nat_text(result.created as nat) + ", 更新 "@ + number::nat_text(
        result.updated as nat,
    ) + ", 失败 "@ + number::nat_text(result.failed as nat)
}

/// How many files came to what.
pub fn counts_text(result: OAuthImportBatchResult) -> (r: String)
    ensures
        r@ == counts(result),
{
    let head: String = text::concat4(
        "新增 ",
        number::usize_text(result.created).as_str(),
        ", 更新 ",
        number::usize_text(result.updated).as_str(),
    );
    text::concat3(head.as_str(), ", 失败 ", number::usize_text(result.failed).as_str())
}

/// Takes in the end of an import, and says what came of it and whether any
/// account changed; what belongs to another import is passed over.
pub fn handle_oauth_import_finished(
    batch: &mut OAuthImportBatch,
    batch_id: &str,
    result: OAuthImportBatchResult,
) -> (r: Option<(String, bool)>)
    ensures
        if old(batch).id@ == batch_id@ {
            &&& r matches Some(said) && said.0@ == "OAuth 导入完成: "@ + counts(result) && said.1
                == (result.created + result.updated > 0)
            &&& *final(batch) == (OAuthImportBatch { result: Some(result), ..*old(batch) })
        } else {
            r is None && *final(batch) == *old(batch)
        },
{
    if !text::same(batch.id.as_str(), batch_id) {
        return None;
    }
    batch.result = Some(result);
    let status: String = text::concat("OAuth 导入完成: ", counts_text(result).as_str());
    Some((status, result.created > 0 || result.updated > 0))
}

/// A file's name with that of its directory.
pub fn import_source_label(parent: Option<&str>, file: &str) -> (r: String)
    ensures
        r@ == match parent {
            Some(parent) => parent@ + "/"@ + file@,
            None => file@,
        },
{
    match parent {
        Some(parent) => text::concat3(parent, "/", file),
        None => file.to_string(),
    }
}

/// What was done with a file.
pub fn import_result_label(action: &str, name: &str, refreshable: bool) -> (r: String)
    ensures
        r@ == if refreshable {
            action@ + ": "@ + name@
        } else {
            action@ + ": "@ + name@ + ", 仅 access token"@
        },
{
    let head: String = text::concat3(action, ": ", name);
    if refreshable {
        head
    } else {
        text::concat(head.as_str(), ", 仅 access token")
    }
}

/// The place of a login is the first that has its identifier.
pub proof fn law_login_is_found_by_identifier(tasks: Seq<TaskView>, id: Seq<char>, from: int)
    requires
        0 <= from <= tasks.len(),
    ensures
        match task_place(tasks, id, from) {
            Some(i) => from <= i < tasks.len() && tasks[i].id == id && forall|j: int|
                from <= j < i ==> (#[trigger] tasks[j]).id != id,
            None => forall|j: int| from <= j < tasks.len() ==> (#[trigger] tasks[j]).id != id,
        },
    decreases tasks.len() - from,
{
    if from < tasks.len() && tasks[from].id != id {
        law_login_is_found_by_identifier(tasks, id, from + 1);
    }
}

/// A login whose code came waits for the user: it is checked once the interval
/// has passed, of at least a second, and expires once the code does, neither
/// before.
pub proof fn law_login_is_checked_until_its_code_expires(
    task: TaskView,
    flow: DeviceFlow,
    now: u128,
    later: u128,
)
    requires
        reaches(now, flow.expires_in as int),
        reaches(now, flow.interval as int),
        now + 1_000_000_000 <= u128::MAX,
    ensures
        begun(task, flow, now).state is Waiting,
        begun(task, flow, now).id == task.id,
        begun(task, flow, now).flow == Some(flow),
        settled(begun(task, flow, now), later).state is Expired <==> later - now
            >= flow.expires_in * 1_000_000_000,
        flow.interval >= 1 ==> (is_due(begun(task, flow, now), later) <==> later - now
            >= flow.interval * 1_000_000_000),
        flow.interval == 0 ==> (is_due(begun(task, flow, now), later) <==> later - now
            >= 1_000_000_000),
        poll_request(begun(task, flow, now)) == Some(flow),
        polled(begun(task, flow, now)).state is Polling,
{
}

/// A login that the user has not confirmed yet, or whose check failed for the
/// moment, waits on and is checked again after its interval; any other answer
/// ends it, and only the one that an account was stored ends it well.
pub proof fn law_answer_of_a_check_decides(
    task: TaskView,
    result: OAuthPollTaskResult,
    now: u128,
    later: u128,
)
    requires
        reaches(now, next_interval(task)),
    ensures
        ({
            let after = after_poll(task, result, now);
            let waits = result is Pending || result is RetryableError;
            &&& waits <==> after.state is Waiting
            &&& !waits <==> after.state.ended()
            &&& after.state is Succeeded <==> result is Stored
            &&& after.state is Expired <==> result is Expired
            &&& after.state is Failed <==> result is Broken
            &&& after.warning is Some && waits <==> result is RetryableError
            &&& waits ==> (is_due(after, later) <==> later - now >= next_interval(task)
                * 1_000_000_000)
            &&& !waits ==> !is_due(after, later)
            &&& after.id == task.id && after.flow == task.flow && after.expires_at
                == task.expires_at
        }),
        task.flow matches Some(flow) ==> (flow.interval >= 1 ==> next_interval(task)
            == flow.interval),
        next_interval(task) >= 1,
{
}

/// A login that does not wait is neither checked nor expires.
pub proof fn law_only_waiting_logins_are_checked(task: TaskView, now: u128)
    requires
        !(task.state is Waiting),
    ensures
        polled(task) == task,
        poll_request(task) is None,
        settled(task, now) == task,
        !is_due(task, now),
{
}

/// The logins that are to be checked are the waiting ones whose time has come,
/// all of them and no others.
pub proof fn law_due_logins_are_those_whose_time_has_come(
    tasks: Seq<TaskView>,
    now: u128,
    id: Seq<char>,
)
    ensures
        due_ids(tasks, now).contains(id) <==> exists|i: int|
            0 <= i < tasks.len() && (#[trigger] tasks[i]).id == id && tasks[i].state is Waiting && (
            tasks[i].next_poll_at matches Some(at) && at <= now),
    decreases tasks.len(),
{
    if tasks.len() > 0 {
        let front = tasks.drop_last();
        law_due_logins_are_those_whose_time_has_come(front, now, id);
        let rest = due_ids(front, now);
        let all = due_ids(tasks, now);
        let n = tasks.len() - 1;
        if rest.contains(id) {
            let k = choose|k: int| 0 <= k < rest.len() && rest[k] == id;
            assert(all[k] == id);
            let i = choose|i: int|
                0 <= i < front.len() && (#[trigger] front[i]).id == id && front[i].state is Waiting
                    && (front[i].next_poll_at matches Some(at) && at <= now);
            assert(tasks[i] == front[i]);
        }
        if is_due(tasks.last(), now) {
            assert(all.last() == tasks.last().id);
            assert(tasks[n] == tasks.last());
            if all.contains(id) && !rest.contains(id) {
                let k = choose|k: int| 0 <= k < all.len() && all[k] == id;
                if k < rest.len() {
                    assert(rest[k] == id);
                }
                assert(tasks[n].id == id);
            }
            if tasks.last().id == id {
                assert(all[all.len() - 1] == id);
                assert(all.contains(id));
            }
        }
        if exists|i: int|
            0 <= i < tasks.len() && (#[trigger] tasks[i]).id == id && tasks[i].state is Waiting && (
            tasks[i].next_poll_at matches Some(at) && at <= now) {
            let i = choose|i: int|
                0 <= i < tasks.len() && (#[trigger] tasks[i]).id == id && tasks[i].state is Waiting
                    && (tasks[i].next_poll_at matches Some(at) && at <= now);
            if i < n {
                assert(front[i] == tasks[i]);
            } else {
                assert(tasks[i] == tasks.last());
                assert(is_due(tasks.last(), now));
            }
        }
    }
}

/// What is said after a check names the account that was stored and whether it
/// is new, or what went wrong.
pub proof fn law_check_is_told(outcome: OAuthAccountStoreOutcome, upstream_name: String, message: String)
    ensures
        poll_text(OAuthPollTaskResult::Stored { outcome, upstream_name }) == "OAuth 账号"@ + (
        if outcome == OAuthAccountStoreOutcome::Created {
            "已新增"@
        } else {
            "已更新"@
        }) + ": "@ + upstream_name@,
        poll_text(OAuthPollTaskResult::Broken(message)) == "OAuth 轮询失败: "@ + message@,
{
}

/// A login that is started again is one at its start, under the same
/// identifier; the others stay.
pub proof fn law_restart_forgets_one_login(tasks: Seq<TaskView>, id: Seq<char>, i: int)
    requires
        0 <= i < tasks.len(),
        tasks[i].id == id,
        forall|j: int| 0 <= j < i ==> (#[trigger] tasks[j]).id != id,
    ensures
        ({
            let after = replaced(tasks, id, starting(id));
            &&& after.len() == tasks.len()
            &&& after[i].id == id && after[i].state is Starting && after[i].flow is None
                && after[i].warning is None && after[i].next_poll_at is None
            &&& forall|j: int|
                0 <= j < tasks.len() && j != i ==> #[trigger] after[j] == tasks[j]
        }),
{
    law_login_is_found_by_identifier(tasks, id, 0);
    let k = task_place(tasks, id, 0)->0;
    if k > i {
        assert(tasks[i].id != id);
    } else if k < i {
        assert(tasks[k].id != id);
    }
}

} // verus!
