//! Calling another app, found anew for each call.

use vstd::prelude::*;

use crate::comm::client::request_url;
use crate::comm::config::api_base_of;
use crate::comm::error::{ErrorCode, ErrorModel, SdkError};
use crate::comm::registry::{agrees, ApiReply, HttpReply};
use crate::text::{concat, trim_end_char};

verus! {

/// Calls one app.
#[derive(Debug, Clone)]
pub struct AppClient {
    pub runtime_url: String,
    pub target_app_id: String,
}

/// What a reply to the question where an app is gives.
pub open spec fn discover_outcome(reply: HttpReply<String>, id: Seq<char>) -> Result<
    Seq<char>,
    ErrorModel,
> {
    match reply {
        HttpReply::Unsent(e) => Err(ErrorModel::Network("服务发现失败: "@ + e@)),
        HttpReply::BadStatus(_, _) => Err(ErrorModel::AppNotFound(id)),
        HttpReply::Unreadable(e) => Err(ErrorModel::Other("解析服务发现响应失败: "@ + e@)),
        HttpReply::Answered(a) => match a.data {
            Some(d) => Ok(d@),
            None => Err(ErrorModel::AppNotFound(id)),
        },
    }
}

/// What an app's answer to a call gives.
pub open spec fn app_call_outcome<T>(body: Result<ApiReply<T>, String>) -> Result<T, ErrorModel> {
    match body {
        Err(e) => Err(ErrorModel::Other("解析响应失败: "@ + e@)),
        Ok(a) => if a.code != 0 {
            Err(ErrorModel::Business(ErrorCode::Other(a.code), a.message@))
        } else {
            match a.data {
                Some(d) => Ok(d),
                None => Err(ErrorModel::Other("响应 data 为空"@)),
            }
        },
    }
}

impl AppClient {
    /// A client of the app with that id.
    pub fn new(runtime_url: &str, target_app_id: &str) -> (r: Self)
        ensures
            r.runtime_url@ == runtime_url@,
            r.target_app_id@ == target_app_id@,
    {
        AppClient {
            runtime_url: runtime_url.to_owned(),
            target_app_id: target_app_id.to_owned(),
        }
    }

    /// Where the runtime is asked for the app.
    pub fn discover_url(&self) -> (r: String)
        ensures
            r@ == app_discover_url(self.runtime_url@, self.target_app_id@),
            r@ == api_base_of(self.runtime_url@) + "/apps/"@ + self.target_app_id@ + "/discover"@,
    {
        let a = concat(trim_end_char(self.runtime_url.as_str(), '/').as_str(), "/api/v1");
        let b = concat(a.as_str(), "/apps/");
        let c = concat(b.as_str(), self.target_app_id.as_str());
        concat(c.as_str(), "/discover")
    }

    /// Where the app is, from the runtime's reply.
    pub fn discovered(&self, reply: HttpReply<String>) -> (r: Result<String, SdkError>)
        ensures
            match (r, discover_outcome(reply, self.target_app_id@)) {
                (Ok(a), Ok(b)) => a@ == b,
                (Err(e), Err(f)) => e@ == f,
                _ => false,
            },
    {
        match reply {
            HttpReply::Unsent(e) => Err(SdkError::Network(concat("服务发现失败: ", e.as_str()))),
            HttpReply::BadStatus(_, _) => Err(SdkError::AppNotFound(self.target_app_id.clone())),
            HttpReply::Unreadable(e) => Err(
                SdkError::Other(concat("解析服务发现响应失败: ", e.as_str())),
            ),
            HttpReply::Answered(a) => match a.data {
                Some(d) => Ok(d),
                None => Err(SdkError::AppNotFound(self.target_app_id.clone())),
            },
        }
    }

    /// The URL of a call, given where the app is.
    pub fn target_url(base: &str, path: &str) -> (r: String)
        ensures
            r@ == request_url(base@, path@),
    {
        concat(trim_end_char(base, '/').as_str(), path)
    }

    /// What sending a call gives, besides the answer itself. A status that means no
    /// success is the code of the error.
    pub fn send_raw(unsent: Option<String>, bad_status: Option<(u16, String, String)>) -> (r: Result<
        (),
        SdkError,
    >)
        ensures
            match (r, raw_outcome(unsent, bad_status)) {
                (Ok(_), None) => true,
                (Err(e), Some(f)) => e@ == f,
                _ => false,
            },
            match (unsent, bad_status) {
                (Some(e), _) => r is Err && r->Err_0@ == ErrorModel::AppUnreachable(
                    "请求失败: "@ + e@,
                ),
                (None, Some(s)) => r is Err && r->Err_0@ == ErrorModel::Business(
                    ErrorCode::Other(s.0 as u32),
                    "HTTP "@ + s.1@ + ": "@ + s.2@,
                ),
                (None, None) => r is Ok,
            },
    {
        match unsent {
            Some(e) => Err(SdkError::AppUnreachable(concat("请求失败: ", e.as_str()))),
            None => match bad_status {
                Some(s) => {
                    let a = concat("HTTP ", s.1.as_str());
                    let b = concat(a.as_str(), ": ");
                    let c = concat(b.as_str(), s.2.as_str());
                    Err(SdkError::new(ErrorCode::Other(s.0 as u32), c.as_str()))
                },
                None => Ok(()),
            },
        }
    }

    /// Reads the body of an answer, or what went wrong with reading it.
    pub fn send<T>(body: Result<ApiReply<T>, String>) -> (r: Result<T, SdkError>)
        ensures
            agrees(r, app_call_outcome(body)),
    {
        match body {
            Err(e) => Err(SdkError::Other(concat("解析响应失败: ", e.as_str()))),
            Ok(a) => {
                if a.code != 0 {
                    return Err(SdkError::new(ErrorCode::Other(a.code), a.message.as_str()));
                }
                match a.data {
                    Some(d) => Ok(d),
                    None => Err(SdkError::Other("响应 data 为空".to_owned())),
                }
            },
        }
    }

    /// Reads the body of an answer whose data does not matter.
    pub fn send_empty<T>(body: Result<ApiReply<T>, String>) -> (r: Result<(), SdkError>)
        ensures
            match (r, app_call_outcome(body)) {
                (Ok(_), Ok(_)) => true,
                (Ok(_), Err(f)) => f is Other && body is Ok,
                (Err(e), Err(f)) => e@ == f && (f is Business || body is Err),
                (Err(_), Ok(_)) => false,
            },
            match body {
                Err(e) => r is Err && r->Err_0@ == ErrorModel::Other("解析响应失败: "@ + e@),
                Ok(a) => if a.code != 0 {
                    r is Err && r->Err_0@ == ErrorModel::Business(
                        ErrorCode::Other(a.code),
                        a.message@,
                    )
                } else {
                    r is Ok
                },
            },
    {
        match body {
            Err(e) => Err(SdkError::Other(concat("解析响应失败: ", e.as_str()))),
            Ok(a) => {
                if a.code != 0 {
                    Err(SdkError::new(ErrorCode::Other(a.code), a.message.as_str()))
                } else {
                    Ok(())
                }
            },
        }
    }
}

/// Where it is asked how an app is reached.
pub open spec fn app_discover_url(runtime_url: Seq<char>, id: Seq<char>) -> Seq<char> {
    api_base_of(runtime_url) + "/apps/"@ + id + "/discover"@
}

/// Why a request brought no body, or nothing where it brought one.
pub open spec fn raw_outcome(
    unsent: Option<String>,
    bad_status: Option<(u16, String, String)>,
) -> Option<ErrorModel> {
    match (unsent, bad_status) {
        (Some(e), _) => Some(ErrorModel::AppUnreachable("请求失败: "@ + e@)),
        (None, Some(s)) => Some(
            ErrorModel::Business(
                ErrorCode::Other(s.0 as u32),
                "HTTP "@ + s.1@ + ": "@ + s.2@,
            ),
        ),
        (None, None) => None,
    }
}

/// It is asked where the runtime tells it of apps.
pub proof fn lemma_app_discover_url(runtime_url: Seq<char>, id: Seq<char>)
    ensures
        app_discover_url(runtime_url, id) == crate::comm::registry::call_url(
            runtime_url,
            crate::comm::registry::discover_path(crate::comm::registry::Family::Apps, id),
        ),
{
    crate::comm::registry::lemma_paths(id);
    assert(app_discover_url(runtime_url, id) =~= crate::comm::registry::call_url(
        runtime_url,
        "/apps/"@ + id + "/discover"@,
    ));
}

/// An app is found exactly where the runtime answers with its address; where the runtime
/// refuses, or answers with none, there is no such app.
pub proof fn lemma_app_is_found(reply: HttpReply<String>, id: Seq<char>)
    ensures
        discover_outcome(reply, id) is Ok <==> reply is Answered && reply->Answered_0.data is Some,
        discover_outcome(reply, id) is Ok ==> discover_outcome(reply, id)->Ok_0
            == reply->Answered_0.data->0@,
        reply is BadStatus || (reply is Answered && reply->Answered_0.data is None)
            <==> discover_outcome(reply, id) == Err::<Seq<char>, ErrorModel>(
            ErrorModel::AppNotFound(id),
        ),
        reply is Unsent <==> discover_outcome(reply, id) is Err && discover_outcome(
            reply,
            id,
        )->Err_0 is Network,
        reply is Unreadable <==> discover_outcome(reply, id) is Err && discover_outcome(
            reply,
            id,
        )->Err_0 is Other,
{
}

/// A call gives its data exactly where its code is 0 and it has some; a code that is not
/// 0 is reported as it is, with the message.
pub proof fn lemma_app_call<T>(body: Result<ApiReply<T>, String>)
    ensures
        app_call_outcome(body) is Ok <==> body is Ok && body->Ok_0.code == 0 && body->Ok_0.data
            is Some,
        app_call_outcome(body) is Ok ==> body->Ok_0.data == Some(app_call_outcome(body)->Ok_0),
        body is Ok && body->Ok_0.code != 0 ==> app_call_outcome(body) == Err::<T, ErrorModel>(
            ErrorModel::Business(ErrorCode::Other(body->Ok_0.code), body->Ok_0.message@),
        ),
        body is Err || (body is Ok && body->Ok_0.code == 0 && body->Ok_0.data is None)
            <==> app_call_outcome(body) is Err && app_call_outcome(body)->Err_0 is Other,
{
}

/// Only a request that was sent, and met no bad status, brings a body; one that was not
/// sent leaves the app unreached, whatever else is told of it.
pub proof fn lemma_request_brings_a_body(
    unsent: Option<String>,
    bad_status: Option<(u16, String, String)>,
)
    ensures
        raw_outcome(unsent, bad_status) is None <==> unsent is None && bad_status is None,
        unsent is Some <==> raw_outcome(unsent, bad_status) is Some && raw_outcome(
            unsent,
            bad_status,
        )->0 is AppUnreachable,
        unsent is None ==> match bad_status {
            Some(s) => raw_outcome(unsent, bad_status) == Some(
                ErrorModel::Business(
                    ErrorCode::Other(s.0 as u32),
                    "HTTP "@ + s.1@ + ": "@ + s.2@,
                ),
            ),
            None => true,
        },
{
}

/// What a failed search for an app, or a failed call, says.
pub proof fn lemma_words_of_failures<T>(id: Seq<char>, a: ApiReply<T>, e: String)
    requires
        a.code == 0,
        a.data is None,
    ensures
        discover_outcome(HttpReply::Unsent(e), id) == Err::<Seq<char>, ErrorModel>(
            ErrorModel::Network("服务发现失败: "@ + e@),
        ),
        discover_outcome(HttpReply::Unreadable(e), id) == Err::<Seq<char>, ErrorModel>(
            ErrorModel::Other("解析服务发现响应失败: "@ + e@),
        ),
        app_call_outcome(Err::<ApiReply<T>, String>(e)) == Err::<T, ErrorModel>(
            ErrorModel::Other("解析响应失败: "@ + e@),
        ),
        app_call_outcome(Ok(a)) == Err::<T, ErrorModel>(ErrorModel::Other("响应 data 为空"@)),
        raw_outcome(Some(e), None) == Some(ErrorModel::AppUnreachable("请求失败: "@ + e@)),
{
}

} // verus!
