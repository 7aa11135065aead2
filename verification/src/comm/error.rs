//! What can go wrong between components, and how it is answered over HTTP.

use vstd::prelude::*;

use crate::text::concat;

verus! {

/// The codes that errors are answered with.
#[derive(Debug, Clone, Copy, PartialEq, Eq, Structural)]
pub enum ErrorCode {
    AppNotFound,
    AppNotRegistered,
    ComponentNotFound,
    ComponentNotRegistered,
    NetworkError,
    ServiceUnavailable,
    Unauthorized,
    TokenInvalid,
    InternalError,
    Unknown,
    /// Any other code, by its number.
    Other(u32),
}

impl ErrorCode {
    /// The HTTP status that a code stands for whatever the base library says: a caller
    /// without the right token is not let in, and an app that is not there is not
    /// found.
    pub open spec fn fixed(self) -> Option<u16> {
        match self {
            ErrorCode::Unauthorized => Some(401u16),
            ErrorCode::TokenInvalid => Some(401u16),
            ErrorCode::AppNotFound => Some(404u16),
            _ => None,
        }
    }

    /// The HTTP status that a code stands for, given the one that the base library
    /// gives it, which counts where none is fixed and where it is a status at all.
    pub open spec fn status(self, code_status: u16) -> u16 {
        match self.fixed() {
            Some(s) => s,
            None => if 100 <= code_status < 1000 {
                code_status
            } else {
                500
            },
        }
    }

    /// The HTTP status that a code stands for.
    pub fn http_status(&self, code_status: u16) -> (r: u16)
        ensures
            r == self.status(code_status),
    {
        match self {
            ErrorCode::Unauthorized => 401,
            ErrorCode::TokenInvalid => 401,
            ErrorCode::AppNotFound => 404,
            _ => {
                if 100 <= code_status && code_status < 1000 {
                    code_status
                } else {
                    500
                }
            },
        }
    }
}

/// An error with its code, as the base library makes it.
#[derive(Debug)]
pub struct PnosError {
    pub code: ErrorCode,
    pub message: String,
}

/// What went wrong.
#[derive(Debug)]
pub enum SdkError {
    /// An error with a code of its own.
    Business(PnosError),
    /// The network failed.
    Network(String),
    /// There is no such app.
    AppNotFound(String),
    /// The app does not answer.
    AppUnreachable(String),
    /// There is no such component.
    ComponentNotFound(String),
    /// The component does not answer.
    ComponentUnreachable(String),
    /// The caller is not who it has to be.
    Auth(String),
    /// The event connection failed.
    WebSocket(String),
    /// A value could not be written or read.
    Serde(String),
    /// Input or output failed.
    Io(String),
    /// Anything else.
    Other(String),
}

/// An error as a value.
#[verifier::ext_equal]
pub enum ErrorModel {
    Business(ErrorCode, Seq<char>),
    Network(Seq<char>),
    AppNotFound(Seq<char>),
    AppUnreachable(Seq<char>),
    ComponentNotFound(Seq<char>),
    ComponentUnreachable(Seq<char>),
    Auth(Seq<char>),
    WebSocket(Seq<char>),
    Serde(Seq<char>),
    Io(Seq<char>),
    Other(Seq<char>),
}

impl View for SdkError {
    type V = ErrorModel;

    open spec fn view(&self) -> ErrorModel {
        match self {
            SdkError::Business(e) => ErrorModel::Business(e.code, e.message@),
            SdkError::Network(m) => ErrorModel::Network(m@),
            SdkError::AppNotFound(m) => ErrorModel::AppNotFound(m@),
            SdkError::AppUnreachable(m) => ErrorModel::AppUnreachable(m@),
            SdkError::ComponentNotFound(m) => ErrorModel::ComponentNotFound(m@),
            SdkError::ComponentUnreachable(m) => ErrorModel::ComponentUnreachable(m@),
            SdkError::Auth(m) => ErrorModel::Auth(m@),
            SdkError::WebSocket(m) => ErrorModel::WebSocket(m@),
            SdkError::Serde(m) => ErrorModel::Serde(m@),
            SdkError::Io(m) => ErrorModel::Io(m@),
            SdkError::Other(m) => ErrorModel::Other(m@),
        }
    }
}

impl ErrorModel {
    /// The code of an error.
    pub open spec fn code_of(self) -> ErrorCode {
        match self {
            ErrorModel::Business(c, _) => c,
            ErrorModel::Network(_) => ErrorCode::NetworkError,
            ErrorModel::AppNotFound(_) => ErrorCode::AppNotFound,
            ErrorModel::AppUnreachable(_) => ErrorCode::ServiceUnavailable,
            ErrorModel::ComponentNotFound(_) => ErrorCode::ComponentNotFound,
            ErrorModel::ComponentUnreachable(_) => ErrorCode::ServiceUnavailable,
            ErrorModel::Auth(_) => ErrorCode::Unauthorized,
            ErrorModel::WebSocket(_) => ErrorCode::InternalError,
            ErrorModel::Serde(_) => ErrorCode::InternalError,
            ErrorModel::Io(_) => ErrorCode::InternalError,
            ErrorModel::Other(_) => ErrorCode::Unknown,
        }
    }

    /// The HTTP status of an error; that of an error with a code of its own is
    /// the one that the code stands for.
    pub open spec fn status_of(self, code_status: u16) -> u16 {
        match self {
            ErrorModel::Business(c, _) => c.status(code_status),
            ErrorModel::Network(_) => 502,
            ErrorModel::AppNotFound(_) => 404,
            ErrorModel::AppUnreachable(_) => 502,
            ErrorModel::ComponentNotFound(_) => 404,
            ErrorModel::ComponentUnreachable(_) => 502,
            ErrorModel::Auth(_) => 401,
            _ => 500,
        }
    }

    /// The text of an error.
    pub open spec fn text_of(self) -> Seq<char> {
        match self {
            ErrorModel::Business(_, m) => m,
            ErrorModel::Network(m) => "网络错误: "@ + m,
            ErrorModel::AppNotFound(m) => "应用未找到: "@ + m,
            ErrorModel::AppUnreachable(m) => "应用不可达: "@ + m,
            ErrorModel::ComponentNotFound(m) => "组件未找到: "@ + m,
            ErrorModel::ComponentUnreachable(m) => "组件不可达: "@ + m,
            ErrorModel::Auth(m) => "认证失败: "@ + m,
            ErrorModel::WebSocket(m) => "WebSocket 错误: "@ + m,
            ErrorModel::Serde(m) => "序列化错误: "@ + m,
            ErrorModel::Io(m) => "IO 错误: "@ + m,
            ErrorModel::Other(m) => "其他错误: "@ + m,
        }
    }

    /// Whether a call that ended so may be made again.
    pub open spec fn may_retry(self) -> bool {
        self is Network || self is AppUnreachable || self is ComponentUnreachable
    }
}

/// The text with which `url::Url::parse` refuses a text, `None` where it does not.
pub uninterp spec fn url_refusal(text: Seq<char>) -> Option<Seq<char>>;

/// `url::Url::parse`: whether a text is a URL, and what is said of it where it is
/// not.
#[verifier::external_body]
fn parse_url(text: &str) -> (r: Result<(), String>)
    ensures
        match r {
            Ok(_) => url_refusal(text@) is None,
            Err(e) => url_refusal(text@) == Some(e@),
        },
{
    url::Url::parse(text).map(|_u| ()).map_err(|e| e.to_string())
}

impl SdkError {
    /// An error with a code of its own.
    pub fn new(code: ErrorCode, message: &str) -> (r: Self)
        ensures
            r@ == ErrorModel::Business(code, message@),
    {
        SdkError::Business(PnosError { code, message: message.to_owned() })
    }

    /// The code of this error.
    pub fn code(&self) -> (r: ErrorCode)
        ensures
            r == self@.code_of(),
    {
        match self {
            SdkError::Business(e) => e.code,
            SdkError::Network(_) => ErrorCode::NetworkError,
            SdkError::AppNotFound(_) => ErrorCode::AppNotFound,
            SdkError::AppUnreachable(_) => ErrorCode::ServiceUnavailable,
            SdkError::ComponentNotFound(_) => ErrorCode::ComponentNotFound,
            SdkError::ComponentUnreachable(_) => ErrorCode::ServiceUnavailable,
            SdkError::Auth(_) => ErrorCode::Unauthorized,
            SdkError::WebSocket(_) => ErrorCode::InternalError,
            SdkError::Serde(_) => ErrorCode::InternalError,
            SdkError::Io(_) => ErrorCode::InternalError,
            SdkError::Other(_) => ErrorCode::Unknown,
        }
    }

    /// The HTTP status of this error. `code_status` is the status that the base
    /// library gives to the code of an error that has one of its own.
    pub fn http_status(&self, code_status: u16) -> (r: u16)
        ensures
            r == self@.status_of(code_status),
    {
        match self {
            SdkError::Business(e) => e.code.http_status(code_status),
            SdkError::Network(_) => 502,
            SdkError::AppNotFound(_) => 404,
            SdkError::AppUnreachable(_) => 502,
            SdkError::ComponentNotFound(_) => 404,
            SdkError::ComponentUnreachable(_) => 502,
            SdkError::Auth(_) => 401,
            _ => 500,
        }
    }

    /// The text of this error.
    pub fn to_string(&self) -> (r: String)
        ensures
            r@ == self@.text_of(),
    {
        match self {
            SdkError::Business(e) => e.message.clone(),
            SdkError::Network(m) => concat("网络错误: ", m.as_str()),
            SdkError::AppNotFound(m) => concat("应用未找到: ", m.as_str()),
            SdkError::AppUnreachable(m) => concat("应用不可达: ", m.as_str()),
            SdkError::ComponentNotFound(m) => concat("组件未找到: ", m.as_str()),
            SdkError::ComponentUnreachable(m) => concat("组件不可达: ", m.as_str()),
            SdkError::Auth(m) => concat("认证失败: ", m.as_str()),
            SdkError::WebSocket(m) => concat("WebSocket 错误: ", m.as_str()),
            SdkError::Serde(m) => concat("序列化错误: ", m.as_str()),
            SdkError::Io(m) => concat("IO 错误: ", m.as_str()),
            SdkError::Other(m) => concat("其他错误: ", m.as_str()),
        }
    }

    /// Whether a call that ended with this error may be made again.
    pub fn is_retryable(&self) -> (r: bool)
        ensures
            r == self@.may_retry(),
    {
        matches!(
            self,
            SdkError::Network(_) | SdkError::AppUnreachable(_) | SdkError::ComponentUnreachable(_)
        )
    }

    /// What an HTTP answer made of this error consists of: the status, the code,
    /// and the text.
    pub fn into_response(self, code_status: u16) -> (r: (u16, ErrorCode, String))
        ensures
            r.0 == self@.status_of(code_status),
            r.1 == self@.code_of(),
            r.2@ == self@.text_of(),
    {
        (self.http_status(code_status), self.code(), self.to_string())
    }

    /// The error that stands for a text that is no URL, given what was said of it.
    pub fn from_parse_error(refusal: &str) -> (r: Self)
        ensures
            r@ == ErrorModel::Other(url_error_text(refusal@)),
            r@ == ErrorModel::Other("URL 解析错误: "@ + refusal@),
    {
        SdkError::Other(concat("URL 解析错误: ", refusal))
    }

    /// Whether a text is a URL.
    pub fn check_url(text: &str) -> (r: Result<(), SdkError>)
        ensures
            match r {
                Ok(_) => url_refusal(text@) is None,
                Err(e) => url_refusal(text@) is Some && e@ == ErrorModel::Other(
                    "URL 解析错误: "@ + url_refusal(text@)->0,
                ),
            },
    {
        match parse_url(text) {
            Ok(_) => Ok(()),
            Err(e) => Err(Self::from_parse_error(e.as_str())),
        }
    }
}

/// Every error is answered with a status that HTTP knows.
pub proof fn lemma_status_is_valid(e: ErrorModel, code_status: u16)
    ensures
        100 <= e.status_of(code_status) < 1000,
{
}

/// What may be tried again is answered as a failure of what lies behind.
pub proof fn lemma_retryable_is_bad_gateway(e: ErrorModel, code_status: u16)
    requires
        e.may_retry(),
    ensures
        e.status_of(code_status) == 502,
{
}

/// What may be tried again is what did not reach the other side: by the kind of error,
/// and by nothing else.
pub proof fn lemma_only_unreached_calls_are_retried(e: ErrorModel, code: ErrorCode, m: Seq<char>)
    ensures
        ErrorModel::Network(m).may_retry(),
        ErrorModel::AppUnreachable(m).may_retry(),
        ErrorModel::ComponentUnreachable(m).may_retry(),
        !ErrorModel::Business(code, m).may_retry(),
        !ErrorModel::AppNotFound(m).may_retry(),
        !ErrorModel::ComponentNotFound(m).may_retry(),
        !ErrorModel::Auth(m).may_retry(),
        !ErrorModel::WebSocket(m).may_retry(),
        !ErrorModel::Serde(m).may_retry(),
        !ErrorModel::Io(m).may_retry(),
        !ErrorModel::Other(m).may_retry(),
{
}

/// How each kind of error is answered: what is not there with 404, a caller who is not
/// who it has to be with 401, what lies behind and does not answer with 502, and what
/// went wrong on this side with 500; an error with a code of its own as its code says.
pub proof fn lemma_statuses(code: ErrorCode, m: Seq<char>, hint: u16)
    ensures
        ErrorModel::AppNotFound(m).status_of(hint) == 404,
        ErrorModel::ComponentNotFound(m).status_of(hint) == 404,
        ErrorModel::Auth(m).status_of(hint) == 401,
        ErrorModel::Network(m).status_of(hint) == 502,
        ErrorModel::AppUnreachable(m).status_of(hint) == 502,
        ErrorModel::ComponentUnreachable(m).status_of(hint) == 502,
        ErrorModel::WebSocket(m).status_of(hint) == 500,
        ErrorModel::Serde(m).status_of(hint) == 500,
        ErrorModel::Io(m).status_of(hint) == 500,
        ErrorModel::Other(m).status_of(hint) == 500,
        ErrorModel::Business(code, m).status_of(hint) == code.status(hint),
        (code is Unauthorized || code is TokenInvalid) ==> code.status(hint) == 401,
        code is AppNotFound ==> code.status(hint) == 404,
        !(code is Unauthorized || code is TokenInvalid || code is AppNotFound) && 100 <= hint <= 999
            ==> code.status(hint) == hint,
        !(code is Unauthorized || code is TokenInvalid || code is AppNotFound) && (hint < 100 || hint
            > 999) ==> code.status(hint) == 500,
{
}

/// The code of each kind of error.
pub proof fn lemma_codes(code: ErrorCode, m: Seq<char>)
    ensures
        ErrorModel::Business(code, m).code_of() == code,
        ErrorModel::Network(m).code_of() is NetworkError,
        ErrorModel::AppNotFound(m).code_of() is AppNotFound,
        ErrorModel::ComponentNotFound(m).code_of() is ComponentNotFound,
        ErrorModel::AppUnreachable(m).code_of() is ServiceUnavailable,
        ErrorModel::ComponentUnreachable(m).code_of() is ServiceUnavailable,
        ErrorModel::Auth(m).code_of() is Unauthorized,
        ErrorModel::WebSocket(m).code_of() is InternalError,
        ErrorModel::Serde(m).code_of() is InternalError,
        ErrorModel::Io(m).code_of() is InternalError,
        ErrorModel::Other(m).code_of() is Unknown,
{
}

/// The text of an error ends with what was said of it, and that of one with a code of
/// its own is just that.
pub proof fn lemma_text_ends_with_the_message(e: ErrorModel, m: Seq<char>, code: ErrorCode)
    requires
        e == ErrorModel::Business(code, m) || e == ErrorModel::Network(m) || e
            == ErrorModel::AppNotFound(m) || e == ErrorModel::AppUnreachable(m) || e
            == ErrorModel::ComponentNotFound(m) || e == ErrorModel::ComponentUnreachable(m) || e
            == ErrorModel::Auth(m) || e == ErrorModel::WebSocket(m) || e == ErrorModel::Serde(m) || e
            == ErrorModel::Io(m) || e == ErrorModel::Other(m),
    ensures
        e is Business ==> e.text_of() == m,
        e.text_of().len() >= m.len(),
        e.text_of().skip(e.text_of().len() - m.len()) == m,
{
    let t = e.text_of();
    assert(t.skip(t.len() - m.len()) =~= m);
}

/// What is said of an address that could not be read.
pub open spec fn url_error_text(refusal: Seq<char>) -> Seq<char> {
    "URL 解析错误: "@ + refusal
}

/// The reason stands at the end of what is said.
pub proof fn lemma_url_error_text(refusal: Seq<char>)
    ensures
        url_error_text(refusal) == "URL 解析错误: "@ + refusal,
        url_error_text(refusal).skip("URL 解析错误: "@.len() as int) == refusal,
{
    assert(url_error_text(refusal).skip("URL 解析错误: "@.len() as int) =~= refusal);
}

/// An error counts as what it is: only one that left the other side unreached, in one of
/// three ways, may be tried again, and its code, its status and its text follow from its
/// kind and its message.
pub proof fn lemma_errors_count_as_what_they_are(e: SdkError, hint: u16)
    ensures
        e@.may_retry() <==> e is Network || e is AppUnreachable || e is ComponentUnreachable,
        e is Business ==> e@ == ErrorModel::Business(e->Business_0.code, e->Business_0.message@),
        e is Network ==> e@ == ErrorModel::Network(e->Network_0@),
        e is AppNotFound ==> e@ == ErrorModel::AppNotFound(e->AppNotFound_0@),
        e is AppUnreachable ==> e@ == ErrorModel::AppUnreachable(e->AppUnreachable_0@),
        e is ComponentNotFound ==> e@ == ErrorModel::ComponentNotFound(e->ComponentNotFound_0@),
        e is ComponentUnreachable ==> e@ == ErrorModel::ComponentUnreachable(
            e->ComponentUnreachable_0@,
        ),
        e is Auth ==> e@ == ErrorModel::Auth(e->Auth_0@),
        e is WebSocket ==> e@ == ErrorModel::WebSocket(e->WebSocket_0@),
        e is Serde ==> e@ == ErrorModel::Serde(e->Serde_0@),
        e is Io ==> e@ == ErrorModel::Io(e->Io_0@),
        e is Other ==> e@ == ErrorModel::Other(e->Other_0@),
        e@.status_of(hint) == 502 && !(e is Business) <==> e@.may_retry(),
{
}

/// Each kind of error says what it is before its message.
pub proof fn lemma_texts_name_the_kind(m: Seq<char>)
    ensures
        ErrorModel::Network(m).text_of() == "网络错误: "@ + m,
        ErrorModel::AppNotFound(m).text_of() == "应用未找到: "@ + m,
        ErrorModel::AppUnreachable(m).text_of() == "应用不可达: "@ + m,
        ErrorModel::ComponentNotFound(m).text_of() == "组件未找到: "@ + m,
        ErrorModel::ComponentUnreachable(m).text_of() == "组件不可达: "@ + m,
        ErrorModel::Auth(m).text_of() == "认证失败: "@ + m,
        ErrorModel::WebSocket(m).text_of() == "WebSocket 错误: "@ + m,
        ErrorModel::Serde(m).text_of() == "序列化错误: "@ + m,
        ErrorModel::Io(m).text_of() == "IO 错误: "@ + m,
        ErrorModel::Other(m).text_of() == "其他错误: "@ + m,
{
}

} // verus!
