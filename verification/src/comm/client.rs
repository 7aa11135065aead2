//! Calling other components.

use vstd::prelude::*;

use crate::comm::error::{ErrorCode, ErrorModel, SdkError};
use crate::comm::registry::{agrees, ApiReply};
use crate::numbers::{decimal, to_decimal};
use crate::text::{concat, trim_end_char, without_trailing};

verus! {

/// The method of a request.
#[derive(Debug, Clone, Copy, PartialEq, Eq, Structural)]
pub enum RequestMethod {
    Get,
    Post,
    Put,
    Delete,
}

/// Calls one component.
#[derive(Debug, Clone)]
pub struct ComponentClient {
    pub runtime_url: String,
    pub target_component_id: String,
    /// Whether calls go through the runtime.
    pub use_proxy: bool,
    /// How often a call is made again.
    pub call_retries: u32,
}

/// A request under construction; its body is elsewhere.
#[derive(Debug, Clone)]
pub struct RequestBuilder {
    pub client: ComponentClient,
    pub method: RequestMethod,
    pub path: String,
    pub headers: Vec<(String, String)>,
}

/// Where calls through the runtime begin.
pub open spec fn proxy_base(runtime_url: Seq<char>, id: Seq<char>) -> Seq<char> {
    without_trailing(runtime_url, '/') + "/component/"@ + id
}

/// The URL of a call: where calls begin, without slashes at its end, then the path.
pub open spec fn request_url(base: Seq<char>, path: Seq<char>) -> Seq<char> {
    without_trailing(base, '/') + path
}

impl ComponentClient {
    /// A client that calls directly.
    pub fn new(runtime_url: &str, call_retries: u32, target_component_id: &str) -> (r: Self)
        ensures
            r.runtime_url@ == runtime_url@,
            r.target_component_id@ == target_component_id@,
            !r.use_proxy,
            r.call_retries == call_retries,
    {
        ComponentClient {
            runtime_url: runtime_url.to_owned(),
            target_component_id: target_component_id.to_owned(),
            use_proxy: false,
            call_retries,
        }
    }

    /// The same client, calling through the runtime.
    pub fn via_proxy(self) -> (r: Self)
        ensures
            r == (ComponentClient { use_proxy: true, ..self }),
    {
        let mut s = self;
        s.use_proxy = true;
        s
    }

    fn request(self, method: RequestMethod, path: &str) -> (r: RequestBuilder)
        ensures
            r.client == self,
            r.method == method,
            r.path@ == path@,
            r.headers@.len() == 0,
    {
        RequestBuilder { client: self, method, path: path.to_owned(), headers: Vec::new() }
    }

    /// Begins a request that asks.
    pub fn get(self, path: &str) -> (r: RequestBuilder)
        ensures
            r.client == self,
            r.method is Get,
            r.path@ == path@,
            r.headers@.len() == 0,
    {
        self.request(RequestMethod::Get, path)
    }

    /// Begins a request that adds.
    pub fn post(self, path: &str) -> (r: RequestBuilder)
        ensures
            r.client == self,
            r.method is Post,
            r.path@ == path@,
            r.headers@.len() == 0,
    {
        self.request(RequestMethod::Post, path)
    }

    /// Begins a request that replaces.
    pub fn put(self, path: &str) -> (r: RequestBuilder)
        ensures
            r.client == self,
            r.method is Put,
            r.path@ == path@,
            r.headers@.len() == 0,
    {
        self.request(RequestMethod::Put, path)
    }

    /// Begins a request that removes.
    pub fn delete(self, path: &str) -> (r: RequestBuilder)
        ensures
            r.client == self,
            r.method is Delete,
            r.path@ == path@,
            r.headers@.len() == 0,
    {
        self.request(RequestMethod::Delete, path)
    }
}

/// What a component's answer to a call gives.
pub open spec fn call_outcome<T>(body: Result<ApiReply<T>, String>) -> Result<T, ErrorModel> {
    match body {
        Err(e) => Err(ErrorModel::Other("解析响应失败: "@ + e@)),
        Ok(a) => if a.code != 0 {
            Err(
                ErrorModel::Business(
                    ErrorCode::Unknown,
                    "code="@ + decimal(a.code as nat) + ", message="@ + a.message@,
                ),
            )
        } else {
            match a.data {
                Some(d) => Ok(d),
                None => Err(ErrorModel::Other("响应 data 为空"@)),
            }
        },
    }
}

impl RequestBuilder {
    /// Adds a header.
    pub fn header(self, key: String, value: String) -> (r: Self)
        ensures
            r.client == self.client,
            r.method == self.method,
            r.path == self.path,
            r.headers@ == self.headers@.push((key, value)),
    {
        let mut s = self;
        s.headers.push((key, value));
        s
    }

    /// The URL of the request. `discovered` is the address that was found for the
    /// component, which a call through the runtime does not need.
    pub fn target_url(&self, discovered: &str) -> (r: String)
        ensures
            r@ == request_url(
                base_for(
                    self.client.use_proxy,
                    self.client.runtime_url@,
                    self.client.target_component_id@,
                    discovered@,
                ),
                self.path@,
            ),
            r@ == request_url(
                if self.client.use_proxy {
                    proxy_base(self.client.runtime_url@, self.client.target_component_id@)
                } else {
                    discovered@
                },
                self.path@,
            ),
    {
        let base = if self.client.use_proxy {
            let trimmed = trim_end_char(self.client.runtime_url.as_str(), '/');
            let b = concat(trimmed.as_str(), "/component/");
            concat(b.as_str(), self.client.target_component_id.as_str())
        } else {
            discovered.to_owned()
        };
        concat(trim_end_char(base.as_str(), '/').as_str(), self.path.as_str())
    }

    /// What one try gives, besides the answer itself: a request that could not be
    /// sent, or was answered with a status that means no success, did not reach
    /// the component.
    pub fn send_once(unsent: Option<String>, bad_status: Option<(String, String)>) -> (r: Result<
        (),
        SdkError,
    >)
        ensures
            match (unsent, bad_status) {
                (Some(e), _) => r is Err && r->Err_0@ == ErrorModel::ComponentUnreachable(
                    "请求失败: "@ + e@,
                ),
                (None, Some(s)) => r is Err && r->Err_0@ == ErrorModel::ComponentUnreachable(
                    "HTTP "@ + s.0@ + ": "@ + s.1@,
                ),
                (None, None) => r is Ok,
            },
            match r {
                Ok(_) => failed_try(unsent, bad_status) is None,
                Err(e) => failed_try(unsent, bad_status) == Some(e@),
            },
    {
        match unsent {
            Some(e) => Err(SdkError::ComponentUnreachable(concat("请求失败: ", e.as_str()))),
            None => match bad_status {
                Some(s) => {
                    let a = concat("HTTP ", s.0.as_str());
                    let b = concat(a.as_str(), ": ");
                    Err(SdkError::ComponentUnreachable(concat(b.as_str(), s.1.as_str())))
                },
                None => Ok(()),
            },
        }
    }

    /// Reads the body of an answer, or what went wrong with reading it.
    pub fn send<T>(body: Result<ApiReply<T>, String>) -> (r: Result<T, SdkError>)
        ensures
            agrees(r, call_outcome(body)),
    {
        match body {
            Err(e) => Err(SdkError::Other(concat("解析响应失败: ", e.as_str()))),
            Ok(a) => {
                if a.code != 0 {
                    return Err(Self::refused(a.code, a.message.as_str()));
                }
                match a.data {
                    Some(d) => Ok(d),
                    None => Err(SdkError::Other("响应 data 为空".to_owned())),
                }
            },
        }
    }

    /// Reads the body of an answer whose data does not matter.
    pub fn send_empty<T>(body: Result<ApiReply<T>, String>) -> (r: Result<(), SdkError>)
        ensures
            match (r, call_outcome(body)) {
                (Ok(_), Ok(_)) => true,
                (Ok(_), Err(f)) => f is Other && body is Ok,
                (Err(e), Err(f)) => e@ == f && (f is Business || body is Err),
                (Err(_), Ok(_)) => false,
            },
            match body {
                Err(e) => r is Err && r->Err_0@ == ErrorModel::Other("解析响应失败: "@ + e@),
                Ok(a) => if a.code != 0 {
                    r is Err && r->Err_0@ == ErrorModel::Business(
                        ErrorCode::Unknown,
                        "code="@ + decimal(a.code as nat) + ", message="@ + a.message@,
                    )
                } else {
                    r is Ok
                },
            },
    {
        match body {
            Err(e) => Err(SdkError::Other(concat("解析响应失败: ", e.as_str()))),
            Ok(a) => {
                if a.code != 0 {
                    Err(Self::refused(a.code, a.message.as_str()))
                } else {
                    Ok(())
                }
            },
        }
    }

    /// The error of an answer with a code other than zero.
    fn refused(code: u32, message: &str) -> (r: SdkError)
        ensures
            r@ == ErrorModel::Business(
                ErrorCode::Unknown,
                "code="@ + decimal(code as nat) + ", message="@ + message@,
            ),
    {
        let a = concat("code=", to_decimal(code as u64).as_str());
        let b = concat(a.as_str(), ", message=");
        let c = concat(b.as_str(), message);
        SdkError::new(ErrorCode::Unknown, c.as_str())
    }
}

/// The error that one try ends with: what could not be sent, or the status and text of
/// an answer that means no success; `None` where the try went well.
pub open spec fn failed_try(
    unsent: Option<String>,
    bad_status: Option<(String, String)>,
) -> Option<ErrorModel> {
    match (unsent, bad_status) {
        (Some(e), _) => Some(ErrorModel::ComponentUnreachable("请求失败: "@ + e@)),
        (None, Some(s)) => Some(
            ErrorModel::ComponentUnreachable("HTTP "@ + s.0@ + ": "@ + s.1@),
        ),
        (None, None) => None,
    }
}

/// The pause before the `n`-th repetition of a call, in milliseconds: a hundred
/// times two to the power `n`, `n` counting no further than five.
pub open spec fn pause_ms(n: nat) -> nat {
    100 * two_to(if n <= 5 {
        n
    } else {
        5
    })
}

/// Two to the power `n`.
pub open spec fn two_to(n: nat) -> nat
    decreases n,
{
    if n == 0 {
        1
    } else {
        2 * two_to((n - 1) as nat)
    }
}

/// What to do after a try.
#[derive(Debug)]
pub enum SendStep {
    /// Wait for so many milliseconds, then try again.
    WaitThenRetry(u64),
    /// The call has failed.
    Fail(SdkError),
}

/// A call that is tried several times.
#[derive(Debug, Clone, Copy)]
pub struct SendRun {
    pub max_retries: u32,
    /// The number of the present try, from zero.
    pub attempt: u32,
}

impl SendRun {
    /// The present try is one of those to be made.
    pub open spec fn wf(self) -> bool {
        self.attempt <= self.max_retries
    }

    /// The pause after which a call that ended so is made again, in milliseconds, or
    /// `None` where it has failed.
    pub open spec fn repetition(self, error: ErrorModel) -> Option<nat> {
        if error.may_retry() && self.attempt < self.max_retries {
            Some(pause_ms((self.attempt + 1) as nat))
        } else {
            None
        }
    }

    /// Begins with the first try.
    pub fn new(max_retries: u32) -> (r: Self)
        ensures
            r.wf(),
            r.max_retries == max_retries,
            r.attempt == 0,
    {
        SendRun { max_retries, attempt: 0 }
    }

    /// The present try failed. It is repeated after a pause where the network or
    /// the component is to blame and repetitions are left.
    pub fn send_with_retry(&mut self, error: SdkError) -> (r: SendStep)
        requires
            old(self).wf(),
        ensures
            final(self).wf(),
            final(self).max_retries == old(self).max_retries,
            final(self).attempt <= final(self).max_retries,
            error@.may_retry() && old(self).attempt < old(self).max_retries ==> final(self).attempt
                == old(self).attempt + 1 && r is WaitThenRetry && r->WaitThenRetry_0 as nat
                == pause_ms((old(self).attempt + 1) as nat),
            !(error@.may_retry() && old(self).attempt < old(self).max_retries) ==> *final(self)
                == *old(self) && r == SendStep::Fail(error),
            match old(self).repetition(error@) {
                Some(ms) => r is WaitThenRetry && r->WaitThenRetry_0 as nat == ms,
                None => r is Fail && r->Fail_0@ == error@,
            },
    {
        if !error.is_retryable() || self.attempt >= self.max_retries {
            return SendStep::Fail(error);
        }
        self.attempt = self.attempt + 1;
        proof {
            reveal_with_fuel(two_to, 6);
        }
        let ms: u64 = if self.attempt == 1 {
            200
        } else if self.attempt == 2 {
            400
        } else if self.attempt == 3 {
            800
        } else if self.attempt == 4 {
            1600
        } else {
            3200
        };
        SendStep::WaitThenRetry(ms)
    }
}

/// The pauses between the tries of a call never shrink and end at 3.2 seconds.
pub proof fn lemma_pauses_grow(n: nat)
    ensures
        pause_ms(n) <= pause_ms(n + 1),
        pause_ms(n) <= 3200,
{
    reveal_with_fuel(two_to, 7);
}

/// A call through the runtime names the component behind exactly one slash.
pub proof fn lemma_proxy_ignores_trailing_slashes(runtime_url: Seq<char>, id: Seq<char>)
    ensures
        proxy_base(runtime_url.push('/'), id) == proxy_base(runtime_url, id),
{
    assert(runtime_url.push('/').drop_last() =~= runtime_url);
}

/// Every error that a try of a call can end with leads to another try while any is
/// left: a request that could not be sent, and an answer with a status that means no
/// success. A try that went well ends with no error.
pub proof fn lemma_failed_tries_are_repeated(
    run: SendRun,
    unsent: Option<String>,
    bad_status: Option<(String, String)>,
)
    ensures
        failed_try(unsent, bad_status) is Some <==> unsent is Some || bad_status is Some,
        failed_try(unsent, bad_status) is Some ==> failed_try(unsent, bad_status)->0
            is ComponentUnreachable,
        failed_try(unsent, bad_status) is Some && run.attempt < run.max_retries ==> run.repetition(
            failed_try(unsent, bad_status)->0,
        ) is Some,
        failed_try(unsent, bad_status) is Some && run.attempt >= run.max_retries
            ==> run.repetition(failed_try(unsent, bad_status)->0) is None,
{
}

/// While tries are left, exactly the errors of the network and of an app or component
/// that does not answer are repeated; an answer that refuses, a component that is not
/// there, and every error of this side are not.
pub proof fn lemma_which_errors_are_repeated(
    run: SendRun,
    error: ErrorModel,
    code: ErrorCode,
    m: Seq<char>,
)
    requires
        run.attempt < run.max_retries,
    ensures
        run.repetition(ErrorModel::Network(m)) is Some,
        run.repetition(ErrorModel::ComponentUnreachable(m)) is Some,
        run.repetition(ErrorModel::AppUnreachable(m)) is Some,
        run.repetition(ErrorModel::Business(code, m)) is None,
        run.repetition(ErrorModel::AppNotFound(m)) is None,
        run.repetition(ErrorModel::ComponentNotFound(m)) is None,
        run.repetition(ErrorModel::Auth(m)) is None,
        run.repetition(ErrorModel::WebSocket(m)) is None,
        run.repetition(ErrorModel::Serde(m)) is None,
        run.repetition(ErrorModel::Io(m)) is None,
        run.repetition(ErrorModel::Other(m)) is None,
        run.repetition(error) is Some <==> error is Network || error is ComponentUnreachable
            || error is AppUnreachable,
{
}

/// The pause before the first repetition is 200 milliseconds; each further one doubles
/// it up to the fifth, from where on it stays.
pub proof fn lemma_pauses_double(n: nat)
    requires
        n >= 1,
    ensures
        pause_ms(1) == 200,
        n < 5 ==> pause_ms(n + 1) == 2 * pause_ms(n),
        n >= 5 ==> pause_ms(n) == 3200,
{
    reveal_with_fuel(two_to, 7);
}

/// A call gives its data exactly where the answer could be read, carries code zero and
/// has data.
pub proof fn lemma_call_gives_its_data<T>(body: Result<ApiReply<T>, String>)
    ensures
        call_outcome(body) is Ok <==> body is Ok && body->Ok_0.code == 0 && body->Ok_0.data is Some,
        call_outcome(body) is Ok ==> Some(call_outcome(body)->Ok_0) == body->Ok_0.data,
        body is Ok && body->Ok_0.code != 0 ==> call_outcome(body)->Err_0 is Business
            && call_outcome(body)->Err_0.code_of() is Unknown,
        body is Err ==> call_outcome(body)->Err_0 is Other,
{
}

/// A call goes to the base and the path, with whatever slashes the base ends with left
/// away.
pub proof fn lemma_request_url(base: Seq<char>, path: Seq<char>)
    ensures
        (base.len() == 0 || base.last() != '/') ==> request_url(base, path) == base + path,
        request_url(base.push('/'), path) == request_url(base, path),
{
    assert(base.push('/').drop_last() =~= base);
}

/// Where a request goes to.
pub open spec fn base_for(
    use_proxy: bool,
    runtime_url: Seq<char>,
    id: Seq<char>,
    discovered: Seq<char>,
) -> Seq<char> {
    if use_proxy {
        proxy_base(runtime_url, id)
    } else {
        discovered
    }
}

/// A request goes to the component itself, unless it is to go through the runtime: where
/// the component is does not matter in that case.
pub proof fn lemma_where_requests_go(url: Seq<char>, id: Seq<char>, a: Seq<char>, b: Seq<char>)
    ensures
        base_for(false, url, id, a) == a,
        base_for(true, url, id, a) == base_for(true, url, id, b),
        url.len() > 0 && url.last() != '/' ==> base_for(true, url, id, a) == url + "/component/"@
            + id,
{
    crate::text::lemma_without_the_end(url, '/');
}

/// A refused call reports its code and its message.
pub proof fn lemma_refusals_are_reported<T>(a: ApiReply<T>)
    requires
        a.code != 0,
    ensures
        call_outcome(Ok(a)) == Err::<T, ErrorModel>(
            ErrorModel::Business(
                ErrorCode::Unknown,
                "code="@ + decimal(a.code as nat) + ", message="@ + a.message@,
            ),
        ),
{
}

/// What a failed call says.
pub proof fn lemma_words_of_failures<T>(a: ApiReply<T>, e: String, status: (String, String))
    requires
        a.code == 0,
        a.data is None,
    ensures
        call_outcome(Err::<ApiReply<T>, String>(e)) == Err::<T, ErrorModel>(
            ErrorModel::Other("解析响应失败: "@ + e@),
        ),
        call_outcome(Ok(a)) == Err::<T, ErrorModel>(ErrorModel::Other("响应 data 为空"@)),
        failed_try(Some(e), None) == Some(ErrorModel::ComponentUnreachable("请求失败: "@ + e@)),
        failed_try(Some(e), Some(status)) == failed_try(Some(e), None),
        failed_try(None, Some(status)) == Some(
            ErrorModel::ComponentUnreachable("HTTP "@ + status.0@ + ": "@ + status.1@),
        ),
{
}

} // verus!
