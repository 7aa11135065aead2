//! Who may call this component.

use vstd::prelude::*;

use crate::comm::error::{ErrorCode, ErrorModel, SdkError};
use crate::text::{begins_with, same_text, starts_with, texts};

verus! {

/// What is needed to judge a request.
#[derive(Debug)]
pub struct AuthState {
    /// This component's token, once it has one.
    pub token: Option<String>,
    /// The beginnings of paths that anyone may call.
    pub whitelist: Vec<String>,
}

/// Whether a request goes on.
#[derive(Debug)]
pub enum AuthVerdict {
    /// It does.
    Pass,
    /// It is answered with this error.
    Refuse(SdkError),
}

/// Whether a path begins with one of the open ones.
pub open spec fn is_open(whitelist: Seq<Seq<char>>, path: Seq<char>) -> bool {
    exists|i: int| 0 <= i < whitelist.len() && begins_with(path, #[trigger] whitelist[i])
}

/// How a request is judged: an open path passes; else the caller has to show the
/// component's token, and nothing passes while there is none.
pub open spec fn judged(
    whitelist: Seq<Seq<char>>,
    token: Option<Seq<char>>,
    path: Seq<char>,
    provided: Option<Seq<char>>,
) -> Option<ErrorModel> {
    if is_open(whitelist, path) {
        None
    } else {
        match (provided, token) {
            (_, None) => Some(ErrorModel::Business(ErrorCode::Unauthorized, "应用尚未注册"@)),
            (Some(p), Some(t)) => if p == t {
                None
            } else {
                Some(ErrorModel::Business(ErrorCode::TokenInvalid, "无效的认证 Token"@))
            },
            (None, Some(_)) => Some(
                ErrorModel::Business(ErrorCode::Unauthorized, "缺少 X-Pnos-Token 请求头"@),
            ),
        }
    }
}

/// The text of an optional string.
pub open spec fn text_of(s: Option<String>) -> Option<Seq<char>> {
    match s {
        Some(x) => Some(x@),
        None => None,
    }
}

impl AuthState {
    /// Health checks and event connections are open.
    pub fn new(token: Option<String>) -> (r: Self)
        ensures
            texts(r.whitelist@) == open_paths(),
            r.token == token,
            texts(r.whitelist@) == seq!["/health"@, "/api/v1/ws"@, "/ws"@],
    {
        let mut whitelist: Vec<String> = Vec::new();
        whitelist.push("/health".to_owned());
        whitelist.push("/api/v1/ws".to_owned());
        whitelist.push("/ws".to_owned());
        proof {
            assert(texts(whitelist@) =~= seq!["/health"@, "/api/v1/ws"@, "/ws"@]);
        }
        AuthState { token, whitelist }
    }

    /// The same with one more open beginning of paths.
    pub fn add_whitelist(self, path: String) -> (r: Self)
        ensures
            r.token == self.token,
            r.whitelist@ == self.whitelist@.push(path),
    {
        let mut s = self;
        s.whitelist.push(path);
        s
    }

    /// Whether a path begins with one of the open ones.
    pub fn is_whitelisted(&self, path: &str) -> (r: bool)
        ensures
            r == is_open(texts(self.whitelist@), path@),
    {
        let ghost ws = texts(self.whitelist@);
        let mut i: usize = 0;
        while i < self.whitelist.len()
            invariant
                i <= self.whitelist@.len(),
                ws == texts(self.whitelist@),
                forall|j: int| 0 <= j < i ==> !begins_with(path@, #[trigger] ws[j]),
            decreases self.whitelist@.len() - i,
        {
            proof {
                assert(ws[i as int] == self.whitelist@[i as int]@);
            }
            if starts_with(path, self.whitelist[i].as_str()) {
                return true;
            }
            i = i + 1;
        }
        false
    }

    /// Judges a request by its path and by the token that the caller shows.
    pub fn auth_middleware(&self, path: &str, provided: Option<&str>) -> (r: AuthVerdict)
        ensures
            match (
                r,
                judged(
                    texts(self.whitelist@),
                    text_of(self.token),
                    path@,
                    match provided {
                        Some(p) => Some(p@),
                        None => None,
                    },
                ),
            ) {
                (AuthVerdict::Pass, None) => true,
                (AuthVerdict::Refuse(e), Some(m)) => e@ == m,
                _ => false,
            },
    {
        if self.is_whitelisted(path) {
            return AuthVerdict::Pass;
        }
        match (provided, &self.token) {
            (_, None) => AuthVerdict::Refuse(
                SdkError::new(ErrorCode::Unauthorized, "应用尚未注册"),
            ),
            (Some(p), Some(t)) => {
                if same_text(p, t.as_str()) {
                    AuthVerdict::Pass
                } else {
                    AuthVerdict::Refuse(
                        SdkError::new(ErrorCode::TokenInvalid, "无效的认证 Token"),
                    )
                }
            },
            (None, Some(_)) => AuthVerdict::Refuse(
                SdkError::new(ErrorCode::Unauthorized, "缺少 X-Pnos-Token 请求头"),
            ),
        }
    }
}

/// A path that is not open is passed exactly where the component has a token and
/// the caller shows it.
pub proof fn lemma_only_the_token_passes(
    whitelist: Seq<Seq<char>>,
    token: Option<Seq<char>>,
    path: Seq<char>,
    provided: Option<Seq<char>>,
)
    requires
        !is_open(whitelist, path),
    ensures
        judged(whitelist, token, path, provided) is None <==> token is Some && provided == token,
{
}

/// An open path passes whatever the caller shows.
pub proof fn lemma_open_path_passes(
    whitelist: Seq<Seq<char>>,
    token: Option<Seq<char>>,
    path: Seq<char>,
    provided: Option<Seq<char>>,
)
    requires
        is_open(whitelist, path),
    ensures
        judged(whitelist, token, path, provided) is None,
{
}

/// A refused request is answered with status 401, whatever the base library says of
/// codes.
pub proof fn lemma_refusal_is_unauthorized(
    whitelist: Seq<Seq<char>>,
    token: Option<Seq<char>>,
    path: Seq<char>,
    provided: Option<Seq<char>>,
    code_status: u16,
)
    requires
        judged(whitelist, token, path, provided) is Some,
    ensures
        judged(whitelist, token, path, provided)->0.status_of(code_status) == 401,
        judged(whitelist, token, path, provided)->0.code_of() is TokenInvalid <==> provided is Some
            && token is Some,
        judged(whitelist, token, path, provided)->0.code_of() is Unauthorized <==> provided is None
            || token is None,
{
}

/// Opening one more path refuses nothing that passed before.
pub proof fn lemma_whitelist_only_opens(
    whitelist: Seq<Seq<char>>,
    more: Seq<char>,
    token: Option<Seq<char>>,
    path: Seq<char>,
    provided: Option<Seq<char>>,
)
    requires
        judged(whitelist, token, path, provided) is None,
    ensures
        judged(whitelist.push(more), token, path, provided) is None,
{
    if is_open(whitelist, path) {
        let i = choose|i: int|
            0 <= i < whitelist.len() && begins_with(path, #[trigger] whitelist[i]);
        assert(whitelist.push(more)[i] == whitelist[i]);
    }
}

/// The paths that are open where none was added.
pub open spec fn open_paths() -> Seq<Seq<char>> {
    seq!["/health"@, "/api/v1/ws"@, "/ws"@]
}

/// A path is open exactly where some entry is what it begins with.
pub proof fn lemma_open_paths_begin_with_an_entry(
    whitelist: Seq<Seq<char>>,
    i: int,
    rest: Seq<char>,
    path: Seq<char>,
)
    ensures
        0 <= i < whitelist.len() ==> is_open(whitelist, whitelist[i] + rest),
        (forall|j: int|
            0 <= j < whitelist.len() ==> (#[trigger] whitelist[j]).len() > path.len()
                || path.take(whitelist[j].len() as int) != whitelist[j]) ==> !is_open(
            whitelist,
            path,
        ),
{
    if 0 <= i < whitelist.len() {
        assert((whitelist[i] + rest).take(whitelist[i].len() as int) =~= whitelist[i]);
        assert(begins_with(whitelist[i] + rest, whitelist[i]));
    }
}

/// Of the paths that are open by themselves there are the health check and the two
/// sockets, with all below them; one that begins with another letter is closed.
pub proof fn lemma_open_by_themselves(rest: Seq<char>, path: Seq<char>)
    ensures
        is_open(open_paths(), "/health"@ + rest),
        is_open(open_paths(), "/api/v1/ws"@ + rest),
        is_open(open_paths(), "/ws"@ + rest),
        path.len() > 1 && path[1] != 'h' && path[1] != 'a' && path[1] != 'w' ==> !is_open(
            open_paths(),
            path,
        ),
{
    reveal_strlit("/health");
    reveal_strlit("/api/v1/ws");
    reveal_strlit("/ws");
    let o = open_paths();
    lemma_open_paths_begin_with_an_entry(o, 0, rest, path);
    lemma_open_paths_begin_with_an_entry(o, 1, rest, path);
    lemma_open_paths_begin_with_an_entry(o, 2, rest, path);
    if path.len() > 1 && path[1] != 'h' && path[1] != 'a' && path[1] != 'w' {
        assert forall|j: int| 0 <= j < o.len() implies (#[trigger] o[j]).len() > path.len()
            || path.take(o[j].len() as int) != o[j] by {
            if o[j].len() <= path.len() {
                assert(path.take(o[j].len() as int)[1] == path[1]);
            }
        }
    }
}

/// A refusal says what is wrong: that the application has no token yet, that the request
/// brought none, or that the one it brought is another.
pub proof fn lemma_what_refusals_say(
    whitelist: Seq<Seq<char>>,
    path: Seq<char>,
    token: Seq<char>,
    provided: Seq<char>,
)
    requires
        !is_open(whitelist, path),
        token != provided,
    ensures
        judged(whitelist, None, path, None) == Some(
            ErrorModel::Business(ErrorCode::Unauthorized, "应用尚未注册"@),
        ),
        judged(whitelist, None, path, Some(provided)) == judged(whitelist, None, path, None),
        judged(whitelist, Some(token), path, None) == Some(
            ErrorModel::Business(ErrorCode::Unauthorized, "缺少 X-Pnos-Token 请求头"@),
        ),
        judged(whitelist, Some(token), path, Some(provided)) == Some(
            ErrorModel::Business(ErrorCode::TokenInvalid, "无效的认证 Token"@),
        ),
        judged(whitelist, Some(token), path, Some(token)) is None,
{
}

} // verus!
