//! The runtime's API: where its calls go and what its answers mean.

use vstd::prelude::*;

use crate::comm::config::{api_base_of, SdkConfig};
use crate::comm::error::{ErrorCode, ErrorModel, SdkError};
use crate::text::concat;
use crate::time::{secs, Duration};

verus! {

/// The body of an answer of the runtime or of a component.
#[derive(Debug)]
pub struct ApiReply<T> {
    /// Zero where the call went well.
    pub code: u32,
    pub message: String,
    pub data: Option<T>,
}

/// How a request ended.
#[derive(Debug)]
pub enum HttpReply<T> {
    /// It could not be sent; why.
    Unsent(String),
    /// It was answered with a status that means no success; that status and the
    /// text of the answer.
    BadStatus(String, String),
    /// The answer could not be read; why.
    Unreadable(String),
    /// It was answered.
    Answered(ApiReply<T>),
}

/// Under which name the runtime keeps what is registered.
#[derive(Debug, Clone, Copy, PartialEq, Eq, Structural)]
pub enum Family {
    /// Components of every type.
    Components,
    /// Apps alone.
    Apps,
}

impl Family {
    /// The beginning of the paths of the API.
    pub open spec fn root(self) -> Seq<char> {
        match self {
            Family::Components => "/components"@,
            Family::Apps => "/apps"@,
        }
    }

    /// The beginning of the paths of the API.
    pub fn path(&self) -> (r: &'static str)
        ensures
            r@ == self.root(),
    {
        match self {
            Family::Components => "/components",
            Family::Apps => "/apps",
        }
    }

    /// The code of a failed registration.
    pub open spec fn register_code(self) -> ErrorCode {
        match self {
            Family::Components => ErrorCode::ComponentNotRegistered,
            Family::Apps => ErrorCode::AppNotRegistered,
        }
    }

    /// The code of a list that was refused.
    pub open spec fn list_code(self) -> ErrorCode {
        match self {
            Family::Components => ErrorCode::ComponentNotRegistered,
            Family::Apps => ErrorCode::AppNotFound,
        }
    }

    /// The error for an id that nothing is registered under.
    pub open spec fn not_found(self, id: Seq<char>) -> ErrorModel {
        match self {
            Family::Components => ErrorModel::ComponentNotFound(id),
            Family::Apps => ErrorModel::AppNotFound(id),
        }
    }

    fn unknown(&self, id: &str) -> (r: SdkError)
        ensures
            r@ == self.not_found(id@),
    {
        match self {
            Family::Components => SdkError::ComponentNotFound(id.to_owned()),
            Family::Apps => SdkError::AppNotFound(id.to_owned()),
        }
    }

    /// What is said of a list that could not be asked for.
    pub open spec fn list_unsent(self) -> Seq<char> {
        match self {
            Family::Components => "查询组件列表失败: "@,
            Family::Apps => "查询应用列表失败: "@,
        }
    }

    /// What is said of details that could not be asked for.
    pub open spec fn detail_unsent(self) -> Seq<char> {
        match self {
            Family::Components => "查询组件详情失败: "@,
            Family::Apps => "查询应用详情失败: "@,
        }
    }
}

/// What a component is.
#[derive(Debug, Clone, Copy, PartialEq, Eq, Structural)]
pub enum ComponentType {
    App,
    Agent,
    Runtime,
    Master,
}

/// What the runtime tells of a component.
#[derive(Debug)]
pub struct ComponentInfo {
    pub id: String,
    pub component_type: ComponentType,
}

/// The URL of a call of the runtime's API.
pub open spec fn call_url(runtime_url: Seq<char>, path: Seq<char>) -> Seq<char> {
    api_base_of(runtime_url) + path
}

/// The path of the details of what is registered under `id`.
pub open spec fn detail_path(family: Family, id: Seq<char>) -> Seq<char> {
    family.root() + "/"@ + id
}

/// What a reply to a registration gives.
pub open spec fn register_outcome<T>(family: Family, reply: HttpReply<T>) -> Result<T, ErrorModel> {
    match reply {
        HttpReply::Unsent(e) => Err(ErrorModel::Network("注册请求失败: "@ + e@)),
        HttpReply::BadStatus(s, t) => Err(
            ErrorModel::Business(
                family.register_code(),
                "HTTP "@ + s@ + ": "@ + t@,
            ),
        ),
        HttpReply::Unreadable(e) => Err(ErrorModel::Network(e@)),
        HttpReply::Answered(a) => if a.code != 0 {
            Err(ErrorModel::Business(family.register_code(), a.message@))
        } else {
            match a.data {
                Some(d) => Ok(d),
                None => Err(ErrorModel::Other("注册响应 data 为空"@)),
            }
        },
    }
}

/// What a reply to a call that is accepted or not gives: a status that means no
/// success counts as not accepted.
pub open spec fn acceptance_outcome(reply: HttpReply<bool>, unsent: Seq<char>) -> Result<
    bool,
    ErrorModel,
> {
    match reply {
        HttpReply::Unsent(e) => Err(ErrorModel::Network(unsent + e@)),
        HttpReply::BadStatus(_, _) => Ok(false),
        HttpReply::Unreadable(e) => Err(ErrorModel::Network(e@)),
        HttpReply::Answered(a) => Ok(
            match a.data {
                Some(d) => d,
                None => false,
            },
        ),
    }
}

/// What a reply to a question about one component gives: without data, or with a
/// status that means no success, there is no such component.
pub open spec fn lookup_outcome<T>(
    family: Family,
    reply: HttpReply<T>,
    id: Seq<char>,
    unsent: Seq<char>,
) -> Result<T, ErrorModel> {
    match reply {
        HttpReply::Unsent(e) => Err(ErrorModel::Network(unsent + e@)),
        HttpReply::BadStatus(_, _) => Err(family.not_found(id)),
        HttpReply::Unreadable(e) => Err(ErrorModel::Network(e@)),
        HttpReply::Answered(a) => match a.data {
            Some(d) => Ok(d),
            None => Err(family.not_found(id)),
        },
    }
}

/// Whether a result is the one that was to be expected.
pub open spec fn agrees<T>(r: Result<T, SdkError>, m: Result<T, ErrorModel>) -> bool {
    match (r, m) {
        (Ok(a), Ok(b)) => a == b,
        (Err(e), Err(f)) => e@ == f,
        _ => false,
    }
}

/// The components of one type, in order.
pub open spec fn of_type(all: Seq<ComponentInfo>, t: ComponentType) -> Seq<ComponentInfo> {
    all.filter(|c: ComponentInfo| c.component_type == t)
}

/// Calls the runtime; the connection is elsewhere.
#[derive(Debug)]
pub struct RuntimeClient {
    pub runtime_url: String,
    /// Under which name the runtime keeps this component.
    pub family: Family,
    /// Id under which the component is registered.
    pub component_id: String,
    /// The component's token, once it has one.
    pub token: Option<String>,
}

impl RuntimeClient {
    /// A client without a token.
    pub fn new(config: &SdkConfig, family: Family) -> (r: Self)
        ensures
            r.runtime_url@ == config.runtime_url@,
            r.family == family,
            r.component_id@ == config.app_id@,
            r.token is None,
    {
        RuntimeClient {
            runtime_url: config.runtime_url.clone(),
            family,
            component_id: config.app_id.clone(),
            token: None,
        }
    }

    /// The component's token.
    pub fn token(&self) -> (r: Option<&String>)
        ensures
            r == match self.token {
                Some(t) => Some(&t),
                None => None,
            },
    {
        match &self.token {
            Some(t) => Some(t),
            None => None,
        }
    }

    /// Takes the token that the registration gave.
    pub fn set_token(&mut self, token: String)
        ensures
            *final(self) == (RuntimeClient { token: Some(token), ..*old(self) }),
    {
        self.token = Some(token);
    }

    /// Takes the id under which the component is registered; heartbeats and the
    /// end of the registration carry it.
    pub fn set_component_id(&mut self, id: String)
        ensures
            *final(self) == (RuntimeClient { component_id: id, ..*old(self) }),
    {
        self.component_id = id;
    }

    /// The URL of a call.
    fn url(&self, path: &str) -> (r: String)
        ensures
            r@ == call_url(self.runtime_url@, path@),
    {
        let base = crate::text::trim_end_char(self.runtime_url.as_str(), '/');
        let api = concat(base.as_str(), "/api/v1");
        concat(api.as_str(), path)
    }

    /// Where a registration goes.
    pub fn register_url(&self) -> (r: String)
        ensures
            r@ == call_url(self.runtime_url@, register_path(self.family)),
            r@ == call_url(self.runtime_url@, self.family.root() + "/register"@),
    {
        self.url(concat(self.family.path(), "/register").as_str())
    }

    /// Where the end of a registration goes.
    pub fn unregister_url(&self) -> (r: String)
        ensures
            r@ == call_url(self.runtime_url@, unregister_path(self.family)),
            r@ == call_url(self.runtime_url@, self.family.root() + "/unregister"@),
    {
        self.url(concat(self.family.path(), "/unregister").as_str())
    }

    /// Where heartbeats go.
    pub fn heartbeat_url(&self) -> (r: String)
        ensures
            r@ == call_url(self.runtime_url@, heartbeat_path(self.family)),
            r@ == call_url(self.runtime_url@, self.family.root() + "/heartbeat"@),
    {
        self.url(concat(self.family.path(), "/heartbeat").as_str())
    }

    /// Where the list of components is.
    pub fn list_url(&self) -> (r: String)
        ensures
            r@ == call_url(self.runtime_url@, self.family.root()),
    {
        self.url(self.family.path())
    }

    /// Where the details of a component are.
    pub fn detail_url(&self, component_id: &str) -> (r: String)
        ensures
            r@ == call_url(self.runtime_url@, detail_path(self.family, component_id@)),
    {
        let path = concat(concat(self.family.path(), "/").as_str(), component_id);
        self.url(path.as_str())
    }

    /// Where the address of a component is.
    pub fn discover_url(&self, component_id: &str) -> (r: String)
        ensures
            r@ == call_url(self.runtime_url@, discover_path(self.family, component_id@)),
            r@ == call_url(
                self.runtime_url@,
                detail_path(self.family, component_id@) + "/discover"@,
            ),
    {
        let path = concat(concat(self.family.path(), "/").as_str(), component_id);
        self.url(concat(path.as_str(), "/discover").as_str())
    }

    /// Where the system's description is.
    pub fn system_info_url(&self) -> (r: String)
        ensures
            r@ == call_url(self.runtime_url@, "/system/info"@),
    {
        self.url("/system/info")
    }

    /// Where the system's measurements are.
    pub fn system_stats_url(&self) -> (r: String)
        ensures
            r@ == call_url(self.runtime_url@, "/system/stats"@),
    {
        self.url("/system/stats")
    }

    /// Reads the reply to a registration.
    pub fn register<T>(&self, reply: HttpReply<T>) -> (r: Result<T, SdkError>)
        ensures
            agrees(r, register_outcome(self.family, reply)),
    {
        let code = match self.family {
            Family::Components => ErrorCode::ComponentNotRegistered,
            Family::Apps => ErrorCode::AppNotRegistered,
        };
        match reply {
            HttpReply::Unsent(e) => Err(SdkError::Network(concat("注册请求失败: ", e.as_str()))),
            HttpReply::BadStatus(s, t) => {
                let a = concat("HTTP ", s.as_str());
                let b = concat(a.as_str(), ": ");
                let c = concat(b.as_str(), t.as_str());
                Err(SdkError::new(code, c.as_str()))
            },
            HttpReply::Unreadable(e) => Err(SdkError::Network(e)),
            HttpReply::Answered(a) => {
                if a.code != 0 {
                    return Err(SdkError::new(code, a.message.as_str()));
                }
                match a.data {
                    Some(d) => Ok(d),
                    None => Err(SdkError::Other("注册响应 data 为空".to_owned())),
                }
            },
        }
    }

    /// Reads the reply to a call that is accepted or not.
    fn acceptance(reply: HttpReply<bool>, unsent: &str) -> (r: Result<bool, SdkError>)
        ensures
            agrees(r, acceptance_outcome(reply, unsent@)),
    {
        match reply {
            HttpReply::Unsent(e) => Err(SdkError::Network(concat(unsent, e.as_str()))),
            HttpReply::BadStatus(_, _) => Ok(false),
            HttpReply::Unreadable(e) => Err(SdkError::Network(e)),
            HttpReply::Answered(a) => match a.data {
                Some(d) => Ok(d),
                None => Ok(false),
            },
        }
    }

    /// Reads the reply to the end of a registration.
    pub fn unregister(reply: HttpReply<bool>) -> (r: Result<bool, SdkError>)
        ensures
            agrees(r, acceptance_outcome(reply, "注销请求失败: "@)),
    {
        Self::acceptance(reply, "注销请求失败: ")
    }

    /// Reads the reply to a heartbeat.
    pub fn heartbeat(reply: HttpReply<bool>) -> (r: Result<bool, SdkError>)
        ensures
            agrees(r, acceptance_outcome(reply, "心跳请求失败: "@)),
    {
        Self::acceptance(reply, "心跳请求失败: ")
    }

    /// Reads the list of components; without data it is empty.
    pub fn list_components(&self, reply: HttpReply<Vec<ComponentInfo>>) -> (r: Result<
        Vec<ComponentInfo>,
        SdkError,
    >)
        ensures
            match (r, list_outcome(self.family, reply)) {
                (Ok(v), Ok(all)) => v@ == all,
                (Err(e), Err(f)) => e@ == f,
                _ => false,
            },
            match reply {
                HttpReply::Unsent(e) => r is Err && r->Err_0@ == ErrorModel::Network(
                    self.family.list_unsent() + e@,
                ),
                HttpReply::BadStatus(s, _) => r is Err && r->Err_0@ == ErrorModel::Business(
                    self.family.list_code(),
                    "HTTP "@ + s@,
                ),
                HttpReply::Unreadable(e) => r is Err && r->Err_0@ == ErrorModel::Network(e@),
                HttpReply::Answered(a) => r is Ok && r->Ok_0@ == match a.data {
                    Some(v) => v@,
                    None => Seq::<ComponentInfo>::empty(),
                },
            },
    {
        let (code, unsent) = match self.family {
            Family::Components => (ErrorCode::ComponentNotRegistered, "查询组件列表失败: "),
            Family::Apps => (ErrorCode::AppNotFound, "查询应用列表失败: "),
        };
        match reply {
            HttpReply::Unsent(e) => Err(SdkError::Network(concat(unsent, e.as_str()))),
            HttpReply::BadStatus(s, _) => Err(
                SdkError::new(code, concat("HTTP ", s.as_str()).as_str()),
            ),
            HttpReply::Unreadable(e) => Err(SdkError::Network(e)),
            HttpReply::Answered(a) => match a.data {
                Some(v) => Ok(v),
                None => {
                    let none: Vec<ComponentInfo> = Vec::new();
                    Ok(none)
                },
            },
        }
    }

    /// Reads the reply to a question about one component.
    fn lookup<T>(&self, reply: HttpReply<T>, component_id: &str, unsent: &str) -> (r: Result<
        T,
        SdkError,
    >)
        ensures
            agrees(r, lookup_outcome(self.family, reply, component_id@, unsent@)),
    {
        match reply {
            HttpReply::Unsent(e) => Err(SdkError::Network(concat(unsent, e.as_str()))),
            HttpReply::BadStatus(_, _) => Err(self.family.unknown(component_id)),
            HttpReply::Unreadable(e) => Err(SdkError::Network(e)),
            HttpReply::Answered(a) => match a.data {
                Some(d) => Ok(d),
                None => Err(self.family.unknown(component_id)),
            },
        }
    }

    /// Reads the details of a component.
    pub fn component_detail<T>(&self, reply: HttpReply<T>, component_id: &str) -> (r: Result<
        T,
        SdkError,
    >)
        ensures
            agrees(
                r,
                lookup_outcome(self.family, reply, component_id@, self.family.detail_unsent()),
            ),
    {
        match self.family {
            Family::Components => self.lookup(reply, component_id, "查询组件详情失败: "),
            Family::Apps => self.lookup(reply, component_id, "查询应用详情失败: "),
        }
    }

    /// Reads the address of a component.
    pub fn discover<T>(&self, reply: HttpReply<T>, component_id: &str) -> (r: Result<T, SdkError>)
        ensures
            agrees(r, lookup_outcome(self.family, reply, component_id@, "服务发现失败: "@)),
    {
        self.lookup(reply, component_id, "服务发现失败: ")
    }

    /// The components of one type, in order.
    pub fn list_by_type(all: Vec<ComponentInfo>, component_type: ComponentType) -> (r: Vec<
        ComponentInfo,
    >)
        ensures
            r@ == of_type(all@, component_type),
    {
        let ghost start = all@;
        let ghost pred = |c: ComponentInfo| c.component_type == component_type;
        let mut rest = all;
        let mut back: Vec<ComponentInfo> = Vec::new();
        // Taking from the end gives the wanted ones in reverse.
        proof {
            assert(start.take(start.len() as int) =~= start);
            reveal(Seq::filter);
        }
        while rest.len() > 0
            invariant
                rest@ == start.take(rest@.len() as int),
                rest@.len() <= start.len(),
                pred == (|c: ComponentInfo| c.component_type == component_type),
                start.filter(pred) == rest@.filter(pred) + back@.reverse(),
            decreases rest@.len(),
        {
            let ghost before = rest@;
            let ghost tail = back@;
            match rest.pop() {
                Some(c) => {
                    proof {
                        reveal(Seq::filter);
                        assert(before.drop_last() =~= rest@);
                        assert(rest@ =~= start.take(rest@.len() as int));
                    }
                    if c.component_type == component_type {
                        back.push(c);
                        proof {
                            assert(before.filter(pred) == rest@.filter(pred).push(c));
                            assert(rest@.filter(pred).push(c) + tail.reverse() =~= rest@.filter(
                                pred,
                            ) + back@.reverse());
                        }
                    }
                },
                None => {},
            }
        }
        proof {
            reveal(Seq::filter);
            assert(rest@.filter(pred) =~= Seq::<ComponentInfo>::empty());
            assert(start.filter(pred) =~= back@.reverse());
        }
        let ghost done = back@.reverse();
        let mut out: Vec<ComponentInfo> = Vec::new();
        while back.len() > 0
            invariant
                done == out@ + back@.reverse(),
            decreases back@.len(),
        {
            let ghost before = back@;
            let ghost had = out@;
            match back.pop() {
                Some(c) => {
                    out.push(c);
                    proof {
                        assert(before =~= back@.push(c));
                        assert(had + before.reverse() =~= out@ + back@.reverse());
                    }
                },
                None => {},
            }
        }
        proof {
            assert(out@ =~= done);
        }
        out
    }

    /// Reads the system's description. The status of the answer does not count.
    pub fn system_info<T>(reply: HttpReply<T>) -> (r: Result<T, SdkError>)
        requires
            !(reply is BadStatus),
        ensures
            agrees(r, system_outcome(reply, "获取系统信息失败: "@, "系统信息为空"@)),
            match reply {
                HttpReply::Unsent(e) => r is Err && r->Err_0@ == ErrorModel::Network(
                    "获取系统信息失败: "@ + e@,
                ),
                HttpReply::Unreadable(e) => r is Err && r->Err_0@ == ErrorModel::Network(e@),
                HttpReply::Answered(a) => match a.data {
                    Some(d) => r is Ok && r->Ok_0 == d,
                    None => r is Err && r->Err_0@ == ErrorModel::Other("系统信息为空"@),
                },
                HttpReply::BadStatus(_, _) => false,
            },
    {
        Self::system_data(reply, "获取系统信息失败: ", "系统信息为空")
    }

    /// Reads the system's measurements. The status of the answer does not count.
    pub fn system_stats<T>(reply: HttpReply<T>) -> (r: Result<T, SdkError>)
        requires
            !(reply is BadStatus),
        ensures
            agrees(r, system_outcome(reply, "获取系统监控失败: "@, "系统监控数据为空"@)),
            match reply {
                HttpReply::Unsent(e) => r is Err && r->Err_0@ == ErrorModel::Network(
                    "获取系统监控失败: "@ + e@,
                ),
                HttpReply::Unreadable(e) => r is Err && r->Err_0@ == ErrorModel::Network(e@),
                HttpReply::Answered(a) => match a.data {
                    Some(d) => r is Ok && r->Ok_0 == d,
                    None => r is Err && r->Err_0@ == ErrorModel::Other("系统监控数据为空"@),
                },
                HttpReply::BadStatus(_, _) => false,
            },
    {
        Self::system_data(reply, "获取系统监控失败: ", "系统监控数据为空")
    }

    fn system_data<T>(reply: HttpReply<T>, unsent: &str, empty: &str) -> (r: Result<T, SdkError>)
        requires
            !(reply is BadStatus),
        ensures
            match reply {
                HttpReply::Unsent(e) => r is Err && r->Err_0@ == ErrorModel::Network(unsent@ + e@),
                HttpReply::Unreadable(e) => r is Err && r->Err_0@ == ErrorModel::Network(e@),
                HttpReply::Answered(a) => match a.data {
                    Some(d) => r is Ok && r->Ok_0 == d,
                    None => r is Err && r->Err_0@ == ErrorModel::Other(empty@),
                },
                HttpReply::BadStatus(_, _) => false,
            },
    {
        match reply {
            HttpReply::Unsent(e) => Err(SdkError::Network(concat(unsent, e.as_str()))),
            HttpReply::BadStatus(_, t) => Err(SdkError::Network(t)),
            HttpReply::Unreadable(e) => Err(SdkError::Network(e)),
            HttpReply::Answered(a) => match a.data {
                Some(d) => Ok(d),
                None => Err(SdkError::Other(empty.to_owned())),
            },
        }
    }
}

/// The pause after the `n`-th failed registration, in seconds: one, two, four,
/// eight, sixteen, and no more than that.
pub open spec fn backoff_secs(n: nat) -> nat {
    if n <= 1 {
        1
    } else if n == 2 {
        2
    } else if n == 3 {
        4
    } else if n == 4 {
        8
    } else {
        16
    }
}

/// What to do after a failed registration.
#[derive(Debug, Clone, Copy, PartialEq, Eq, Structural)]
pub enum RetryStep {
    /// Wait for so long, then register again.
    WaitThenRetry(Duration),
    /// Give up.
    GiveUp,
}

/// A registration that is tried until a limit of time.
#[derive(Debug, Clone, Copy)]
pub struct RegisterRun {
    pub timeout: Duration,
    pub failures: u32,
}

impl RegisterRun {
    /// Nothing has failed yet.
    pub fn new(timeout: Duration) -> (r: Self)
        ensures
            r.timeout == timeout,
            r.failures == 0,
    {
        RegisterRun { timeout, failures: 0 }
    }

    /// A registration failed, so long after the first was begun. Once the time is
    /// over it is given up; until then the next one follows after a pause that
    /// grows, but no later than the end of the time.
    pub fn register_with_retry(&mut self, elapsed: &Duration) -> (r: RetryStep)
        requires
            old(self).failures < u32::MAX,
        ensures
            match retry_pause((old(self).failures + 1) as nat, old(self).timeout@, elapsed@) {
                Some(p) => r is WaitThenRetry && r->WaitThenRetry_0@ == p,
                None => r is GiveUp,
            },
            final(self).timeout == old(self).timeout,
            final(self).failures == old(self).failures + 1,
            elapsed@ >= old(self).timeout@ ==> r is GiveUp,
            elapsed@ < old(self).timeout@ ==> r is WaitThenRetry && r->WaitThenRetry_0@ == ({
                let pause = secs(backoff_secs((old(self).failures + 1) as nat));
                let left = (old(self).timeout@ - elapsed@) as nat;
                if pause <= left {
                    pause
                } else {
                    left
                }
            }),
    {
        self.failures = self.failures + 1;
        if !elapsed.is_shorter(&self.timeout) {
            return RetryStep::GiveUp;
        }
        let pause_secs: u64 = if self.failures <= 1 {
            1
        } else if self.failures == 2 {
            2
        } else if self.failures == 3 {
            4
        } else if self.failures == 4 {
            8
        } else {
            16
        };
        let pause = Duration::from_secs(pause_secs);
        let left = self.timeout.saturating_sub(elapsed);
        if left.is_shorter(&pause) {
            RetryStep::WaitThenRetry(left)
        } else {
            RetryStep::WaitThenRetry(pause)
        }
    }
}

/// The pauses double from one second up to sixteen and then stay there.
pub proof fn lemma_backoff_doubles(n: nat)
    requires
        n >= 1,
    ensures
        backoff_secs(1) == 1,
        backoff_secs(n + 1) == if n < 5 {
            2 * backoff_secs(n)
        } else {
            16
        },
        1 <= backoff_secs(n) <= 16,
{
}

/// Where a registration is sent.
pub open spec fn register_path(family: Family) -> Seq<char> {
    family.root() + "/register"@
}

/// Where the end of a registration is sent.
pub open spec fn unregister_path(family: Family) -> Seq<char> {
    family.root() + "/unregister"@
}

/// Where a heartbeat is sent.
pub open spec fn heartbeat_path(family: Family) -> Seq<char> {
    family.root() + "/heartbeat"@
}

/// Where it is asked how something is reached.
pub open spec fn discover_path(family: Family, id: Seq<char>) -> Seq<char> {
    detail_path(family, id) + "/discover"@
}

/// What a listing gives back.
pub open spec fn list_outcome(family: Family, reply: HttpReply<Vec<ComponentInfo>>) -> Result<
    Seq<ComponentInfo>,
    ErrorModel,
> {
    match reply {
        HttpReply::Unsent(e) => Err(ErrorModel::Network(family.list_unsent() + e@)),
        HttpReply::BadStatus(s, _) => Err(
            ErrorModel::Business(family.list_code(), "HTTP "@ + s@),
        ),
        HttpReply::Unreadable(e) => Err(ErrorModel::Network(e@)),
        HttpReply::Answered(a) => Ok(
            match a.data {
                Some(v) => v@,
                None => Seq::empty(),
            },
        ),
    }
}

/// What a question about the system gives back. The status of its answer is not looked
/// at, so that a bad one does not come up.
pub open spec fn system_outcome<T>(
    reply: HttpReply<T>,
    unsent: Seq<char>,
    empty: Seq<char>,
) -> Result<T, ErrorModel> {
    match reply {
        HttpReply::Unsent(e) => Err(ErrorModel::Network(unsent + e@)),
        HttpReply::BadStatus(_, t) => Err(ErrorModel::Network(t@)),
        HttpReply::Unreadable(e) => Err(ErrorModel::Network(e@)),
        HttpReply::Answered(a) => match a.data {
            Some(d) => Ok(d),
            None => Err(ErrorModel::Other(empty)),
        },
    }
}

/// The pause after so many failed registrations, or none where the time for them is over.
pub open spec fn retry_pause(failures: nat, timeout: nat, elapsed: nat) -> Option<nat> {
    if elapsed >= timeout {
        None
    } else {
        let pause = secs(backoff_secs(failures));
        let left = (timeout - elapsed) as nat;
        Some(
            if pause <= left {
                pause
            } else {
                left
            },
        )
    }
}

/// Components and apps each have their own place, and each request its own below it.
pub proof fn lemma_paths(id: Seq<char>)
    ensures
        register_path(Family::Components) == "/components/register"@,
        register_path(Family::Apps) == "/apps/register"@,
        unregister_path(Family::Components) == "/components/unregister"@,
        unregister_path(Family::Apps) == "/apps/unregister"@,
        heartbeat_path(Family::Components) == "/components/heartbeat"@,
        heartbeat_path(Family::Apps) == "/apps/heartbeat"@,
        detail_path(Family::Components, id) == "/components/"@ + id,
        detail_path(Family::Apps, id) == "/apps/"@ + id,
        discover_path(Family::Components, id) == "/components/"@ + id + "/discover"@,
        discover_path(Family::Apps, id) == "/apps/"@ + id + "/discover"@,
{
    reveal_strlit("/components");
    reveal_strlit("/apps");
    reveal_strlit("/register");
    reveal_strlit("/unregister");
    reveal_strlit("/heartbeat");
    reveal_strlit("/");
    reveal_strlit("/components/");
    reveal_strlit("/apps/");
    reveal_strlit("/components/register");
    reveal_strlit("/apps/register");
    reveal_strlit("/components/unregister");
    reveal_strlit("/apps/unregister");
    reveal_strlit("/components/heartbeat");
    reveal_strlit("/apps/heartbeat");
    assert(register_path(Family::Components) =~= "/components/register"@);
    assert(register_path(Family::Apps) =~= "/apps/register"@);
    assert(unregister_path(Family::Components) =~= "/components/unregister"@);
    assert(unregister_path(Family::Apps) =~= "/apps/unregister"@);
    assert(heartbeat_path(Family::Components) =~= "/components/heartbeat"@);
    assert(heartbeat_path(Family::Apps) =~= "/apps/heartbeat"@);
    assert(detail_path(Family::Components, id) =~= "/components/"@ + id);
    assert(detail_path(Family::Apps, id) =~= "/apps/"@ + id);
}

/// Every request goes below the interface of the runtime, whether or not its address
/// ends in a slash.
pub proof fn lemma_requests_go_below_the_interface(url: Seq<char>, path: Seq<char>)
    requires
        url.len() > 0,
        url.last() != '/',
    ensures
        call_url(url, path) == url + "/api/v1"@ + path,
        call_url(url.push('/'), path) == call_url(url, path),
{
    crate::comm::config::lemma_api_base_is_behind_the_address(url);
}

/// A registration succeeds exactly where the runtime answers with the code 0 and with
/// data, and gives that data; what was not sent, or not understood, is a failure of the
/// network, and what the runtime refuses carries the family's own code.
pub proof fn lemma_registration<T>(family: Family, reply: HttpReply<T>)
    ensures
        register_outcome(family, reply) is Ok <==> reply is Answered && reply->Answered_0.code == 0
            && reply->Answered_0.data is Some,
        register_outcome(family, reply) is Ok ==> reply->Answered_0.data == Some(
            register_outcome(family, reply)->Ok_0,
        ),
        register_outcome(family, reply) is Err ==> ({
            let e = register_outcome(family, reply)->Err_0;
            &&& e is Network <==> reply is Unsent || reply is Unreadable
            &&& e is Other <==> reply is Answered && reply->Answered_0.code == 0
            &&& e is Business <==> reply is BadStatus || (reply is Answered
                && reply->Answered_0.code != 0)
            &&& e is Business && family is Components ==> e->Business_0 is ComponentNotRegistered
            &&& e is Business && family is Apps ==> e->Business_0 is AppNotRegistered
            &&& reply is Answered && reply->Answered_0.code != 0 ==> e->Business_1
                == reply->Answered_0.message@
            &&& reply is BadStatus ==> e->Business_1 == "HTTP "@ + reply->BadStatus_0@ + ": "@
                + reply->BadStatus_1@
            &&& reply is Unsent ==> e->Network_0 == "注册请求失败: "@ + reply->Unsent_0@
        }),
{
}

/// A heartbeat or the end of a registration is accepted exactly where the runtime says
/// so; a refused one is no error, and only a failure of the network is.
pub proof fn lemma_acceptance(reply: HttpReply<bool>, unsent: Seq<char>)
    ensures
        acceptance_outcome(reply, unsent) == Ok::<bool, ErrorModel>(true) <==> reply is Answered
            && reply->Answered_0.data == Some(true),
        acceptance_outcome(reply, unsent) is Err <==> reply is Unsent || reply is Unreadable,
        acceptance_outcome(reply, unsent) is Err ==> acceptance_outcome(reply, unsent)->Err_0
            is Network,
        reply is Unsent ==> acceptance_outcome(reply, unsent)->Err_0->Network_0 == unsent
            + reply->Unsent_0@,
{
}

/// What is looked up is found exactly where the runtime answers with data; a runtime that
/// refuses, or answers with none, says that there is no such thing, and names it.
pub proof fn lemma_lookup<T>(reply: HttpReply<T>, id: Seq<char>, unsent: Seq<char>)
    ensures
        forall|f: Family| #[trigger]
            lookup_outcome(f, reply, id, unsent) is Ok <==> reply is Answered
                && reply->Answered_0.data is Some,
        forall|f: Family| #[trigger]
            lookup_outcome(f, reply, id, unsent) is Ok ==> reply->Answered_0.data == Some(
                lookup_outcome(f, reply, id, unsent)->Ok_0,
            ),
        reply is BadStatus || (reply is Answered && reply->Answered_0.data is None) ==> ({
            &&& lookup_outcome(Family::Components, reply, id, unsent) == Err::<T, ErrorModel>(
                ErrorModel::ComponentNotFound(id),
            )
            &&& lookup_outcome(Family::Apps, reply, id, unsent) == Err::<T, ErrorModel>(
                ErrorModel::AppNotFound(id),
            )
        }),
        reply is Unsent ==> lookup_outcome(Family::Apps, reply, id, unsent) == Err::<T, ErrorModel>(
            ErrorModel::Network(unsent + reply->Unsent_0@),
        ) && lookup_outcome(Family::Components, reply, id, unsent) == lookup_outcome(
            Family::Apps,
            reply,
            id,
            unsent,
        ),
        reply is Unreadable ==> lookup_outcome(Family::Apps, reply, id, unsent) == Err::<
            T,
            ErrorModel,
        >(ErrorModel::Network(reply->Unreadable_0@)),
{
}

/// A listing fails only where the runtime was not reached, not understood or refused; an
/// answer without data lists nothing.
pub proof fn lemma_listing(reply: HttpReply<Vec<ComponentInfo>>)
    ensures
        forall|f: Family| #[trigger] list_outcome(f, reply) is Ok <==> reply is Answered,
        reply is Answered && reply->Answered_0.data is Some ==> list_outcome(
            Family::Components,
            reply,
        ) == Ok::<Seq<ComponentInfo>, ErrorModel>(reply->Answered_0.data->0@),
        reply is Answered && reply->Answered_0.data is None ==> list_outcome(
            Family::Components,
            reply,
        )->Ok_0.len() == 0,
        reply is BadStatus ==> list_outcome(Family::Components, reply) == Err::<
            Seq<ComponentInfo>,
            ErrorModel,
        >(ErrorModel::Business(ErrorCode::ComponentNotRegistered, "HTTP "@ + reply->BadStatus_0@)),
        reply is BadStatus ==> list_outcome(Family::Apps, reply) == Err::<
            Seq<ComponentInfo>,
            ErrorModel,
        >(ErrorModel::Business(ErrorCode::AppNotFound, "HTTP "@ + reply->BadStatus_0@)),
        !(reply is BadStatus) && !(reply is Unsent) ==> list_outcome(Family::Components, reply)
            == list_outcome(Family::Apps, reply),
        reply is Unsent || reply is Unreadable ==> list_outcome(Family::Components, reply)->Err_0
            is Network,
{
}

/// A question about the system is answered exactly where the runtime answers with data.
pub proof fn lemma_system_questions<T>(reply: HttpReply<T>, unsent: Seq<char>, empty: Seq<char>)
    ensures
        system_outcome(reply, unsent, empty) is Ok <==> reply is Answered
            && reply->Answered_0.data is Some,
        system_outcome(reply, unsent, empty) is Ok ==> reply->Answered_0.data == Some(
            system_outcome(reply, unsent, empty)->Ok_0,
        ),
        reply is Answered && reply->Answered_0.data is None ==> system_outcome(
            reply,
            unsent,
            empty,
        ) == Err::<T, ErrorModel>(ErrorModel::Other(empty)),
        reply is Unsent ==> system_outcome(reply, unsent, empty) == Err::<T, ErrorModel>(
            ErrorModel::Network(unsent + reply->Unsent_0@),
        ),
{
}

/// A choice by type keeps those of the type, in their order, and leaves out the others.
pub proof fn lemma_choice_by_type(all: Seq<ComponentInfo>, c: ComponentInfo, t: ComponentType)
    ensures
        of_type(all.push(c), t) == if c.component_type == t {
            of_type(all, t).push(c)
        } else {
            of_type(all, t)
        },
        of_type(Seq::empty(), t) == Seq::<ComponentInfo>::empty(),
{
    reveal(Seq::filter);
    assert(all.push(c).drop_last() =~= all);
    assert(of_type(Seq::empty(), t) =~= Seq::<ComponentInfo>::empty());
}

/// A registration is tried again until its time is over, after a pause of one, two,
/// four, eight and from there on sixteen seconds, and never after the time's end.
pub proof fn lemma_pauses_between_registrations(failures: nat, timeout: nat, elapsed: nat)
    requires
        failures >= 1,
    ensures
        retry_pause(failures, timeout, elapsed) is None <==> elapsed >= timeout,
        elapsed < timeout ==> elapsed + retry_pause(failures, timeout, elapsed)->0 <= timeout,
        elapsed + 16_000_000_000 <= timeout ==> retry_pause(failures, timeout, elapsed) == Some(
            if failures == 1 {
                1_000_000_000nat
            } else if failures == 2 {
                2_000_000_000
            } else if failures == 3 {
                4_000_000_000
            } else if failures == 4 {
                8_000_000_000
            } else {
                16_000_000_000
            },
        ),
        elapsed < timeout < elapsed + 1_000_000_000 ==> elapsed + retry_pause(
            failures,
            timeout,
            elapsed,
        )->0 == timeout,
{
}

/// An outcome agrees with what is said of it only where both succeed with the same value
/// or both fail with the same error.
pub proof fn lemma_outcomes_agree<T>(r: Result<T, SdkError>, m: Result<T, ErrorModel>)
    requires
        agrees(r, m),
    ensures
        r is Ok <==> m is Ok,
        r is Ok ==> r->Ok_0 == m->Ok_0,
        r is Err ==> r->Err_0@ == m->Err_0,
{
}

/// What is said where a question was not sent names what was asked for.
pub proof fn lemma_unsent_texts()
    ensures
        Family::Components.list_unsent() == "查询组件列表失败: "@,
        Family::Apps.list_unsent() == "查询应用列表失败: "@,
        Family::Components.detail_unsent() == "查询组件详情失败: "@,
        Family::Apps.detail_unsent() == "查询应用详情失败: "@,
        Family::Components.root() == "/components"@,
        Family::Apps.root() == "/apps"@,
{
}

/// A pause is the full one where there is time for it, and otherwise just what is left.
pub proof fn lemma_pause_is_full_or_what_is_left(failures: nat, timeout: nat, elapsed: nat)
    requires
        elapsed < timeout,
    ensures
        ({
            let p = retry_pause(failures, timeout, elapsed)->0;
            let full = 1_000_000_000 * backoff_secs(failures);
            &&& elapsed + full <= timeout ==> p == full
            &&& elapsed + full >= timeout ==> elapsed + p == timeout
        }),
{
}

/// What could not be read is reported as it was told, and a registration without data in
/// words of its own.
pub proof fn lemma_words_of_failures<T>(family: Family, a: ApiReply<T>, e: String)
    requires
        a.code == 0,
        a.data is None,
    ensures
        register_outcome(family, HttpReply::<T>::Unreadable(e)) == Err::<T, ErrorModel>(
            ErrorModel::Network(e@),
        ),
        register_outcome(family, HttpReply::Answered(a)) == Err::<T, ErrorModel>(
            ErrorModel::Other("注册响应 data 为空"@),
        ),
        acceptance_outcome(HttpReply::Unreadable(e), e@) == Err::<bool, ErrorModel>(
            ErrorModel::Network(e@),
        ),
        list_outcome(family, HttpReply::Unreadable(e)) == Err::<Seq<ComponentInfo>, ErrorModel>(
            ErrorModel::Network(e@),
        ),
        list_outcome(family, HttpReply::Unsent(e)) == Err::<Seq<ComponentInfo>, ErrorModel>(
            ErrorModel::Network(family.list_unsent() + e@),
        ),
{
}

} // verus!
