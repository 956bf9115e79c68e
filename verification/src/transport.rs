//! What one HTTP call is made of: its address, the kind of its payload, its
//! bearer token; and the descriptors of the login and refresh calls.

use crate::interfaces::{
    lemma_object_view, member_views, ApiTokens, JsonMember, JsonValue, JsonView, LoginDto,
    LoginView, MemberView, Request, RequestMethod, RequestView, TokensView,
};
use vstd::prelude::*;

verus! {

/// How the body of a call is encoded.
#[derive(Clone, Copy, Debug, PartialEq, Eq, Structural)]
pub enum PayloadKind {
    /// The JSON body as it is, or nothing.
    Json,
    /// A multipart form of the files and the body's fields.
    Multipart,
}

/// One call, ready to be sent.
#[derive(Debug)]
pub struct Call {
    pub method: RequestMethod,
    pub url: String,
    pub payload: PayloadKind,
    pub bearer: Option<String>,
}

/// A request with files is sent as a multipart form, any other as JSON.
pub open spec fn payload_kind_of(request: RequestView) -> PayloadKind {
    if request.files is Some {
        PayloadKind::Multipart
    } else {
        PayloadKind::Json
    }
}

/// The address of a call: the path of the request behind the base URL.
pub fn full_url(api_url: &str, path: &str) -> (url: String)
    ensures
        url@ == api_url@ + path@,
{
    String::from_str(api_url).concat(path)
}

/// Lays out the call for a request: where it goes, how its body is
/// encoded, and the bearer token, if one is given.
pub fn prepare(api_url: &str, request: &Request, token: Option<&str>) -> (call: Call)
    ensures
        call.method == request@.method,
        call.url@ == api_url@ + request@.url,
        call.payload == payload_kind_of(request@),
        match token {
            Some(text) => (call.bearer matches Some(bearer) && bearer@ == text@),
            None => call.bearer is None,
        },
{
    Call {
        method: request.method,
        url: full_url(api_url, request.url.as_str()),
        payload: if request.files.is_some() {
            PayloadKind::Multipart
        } else {
            PayloadKind::Json
        },
        bearer: match token {
            Some(text) => Some(String::from_str(text)),
            None => None,
        },
    }
}

/// A POST to `path` with an object of these members as its body, without
/// credentials of its own and without files.
pub open spec fn plain_post(path: Seq<char>, members: Seq<MemberView>) -> RequestView {
    RequestView {
        method: RequestMethod::Post,
        url: path,
        body: Some(JsonView::Object(members)),
        auth: None,
        files: None,
    }
}

/// A member whose value is a text.
pub open spec fn text_member(key: Seq<char>, text: Seq<char>) -> MemberView {
    MemberView { key, value: JsonView::Text(text) }
}

/// The body of the login call.
pub open spec fn login_members(credentials: LoginView) -> Seq<MemberView> {
    seq![
        text_member("email"@, credentials.email),
        text_member("password"@, credentials.password),
        match credentials.code {
            Some(code) => text_member("code"@, code),
            None => MemberView { key: "code"@, value: JsonView::Null },
        },
    ]
}

/// The body of the refresh call.
pub open spec fn refresh_members(tokens: TokensView) -> Seq<MemberView> {
    seq![text_member("refresh_token"@, tokens.refresh_token)]
}

fn new_text_member(key: &str, text: &String) -> (member: JsonMember)
    ensures
        member@ == text_member(key@, text@),
{
    JsonMember { key: String::from_str(key), value: JsonValue::Text(text.clone()) }
}

fn post(path: &str, members: Vec<JsonMember>) -> (request: Request)
    ensures
        request@ == plain_post(path@, member_views(members@)),
{
    proof {
        lemma_object_view(members);
    }
    Request {
        method: RequestMethod::Post,
        url: String::from_str(path),
        body: Some(JsonValue::Object(members)),
        auth: None,
        files: None,
    }
}

/// The login call: the credentials, posted to `/login`.
pub fn login_request(credentials: &LoginDto) -> (request: Request)
    ensures
        request@ == plain_post("/login"@, login_members(credentials@)),
{
    let mut members: Vec<JsonMember> = Vec::new();
    members.push(new_text_member("email", &credentials.email));
    members.push(new_text_member("password", &credentials.password));
    members.push(
        match &credentials.code {
            Some(code) => new_text_member("code", code),
            None => JsonMember { key: String::from_str("code"), value: JsonValue::Null },
        },
    );
    assert(member_views(members@) =~= login_members(credentials@));
    post("/login", members)
}

/// The refresh call: the refresh token of a pair, posted to
/// `/auth/refresh`.
pub fn refresh_request(tokens: &ApiTokens) -> (request: Request)
    ensures
        request@ == plain_post("/auth/refresh"@, refresh_members(tokens@)),
{
    let mut members: Vec<JsonMember> = Vec::new();
    members.push(new_text_member("refresh_token", &tokens.refresh_token));
    assert(member_views(members@) =~= refresh_members(tokens@));
    post("/auth/refresh", members)
}

} // verus!
