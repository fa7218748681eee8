use vstd::prelude::*;

use crate::error::ApiError;
use crate::json::{lemma_object_view, member_of, Json, JsonValue};

verus! {

/// The protocol version that every envelope carries.
pub open spec fn protocol_version() -> Seq<char> {
    "2.0"@
}

/// The method that opens a session.
pub open spec fn login_method() -> Seq<char> {
    "user.login"@
}

/// The parameters of a login call: the user name and the password.
pub open spec fn login_params(user: Seq<char>, password: Seq<char>) -> JsonValue {
    JsonValue::Object(seq![("user"@, JsonValue::Str(user)), ("password"@, JsonValue::Str(password))])
}

/// What a request envelope holds.
pub struct RequestView {
    pub jsonrpc: Seq<char>,
    pub method: Seq<char>,
    pub params: JsonValue,
    pub id: nat,
    pub auth: Option<Seq<char>>,
}

/// A JSON-RPC request.
#[derive(Debug)]
pub struct Request {
    pub jsonrpc: String,
    pub method: String,
    pub params: Json,
    pub id: usize,
    pub auth: Option<String>,
}

/// The text of an optional string.
pub open spec fn text_of(s: Option<String>) -> Option<Seq<char>> {
    match s {
        Some(t) => Some(t@),
        None => None,
    }
}

impl View for Request {
    type V = RequestView;

    open spec fn view(&self) -> RequestView {
        RequestView {
            jsonrpc: self.jsonrpc@,
            method: self.method@,
            params: self.params@,
            id: self.id as nat,
            auth: text_of(self.auth),
        }
    }
}

/// The envelope of a login call.
pub open spec fn login_envelope(user: Seq<char>, password: Seq<char>, id: nat) -> RequestView {
    RequestView {
        jsonrpc: protocol_version(),
        method: login_method(),
        params: login_params(user, password),
        id,
        auth: None,
    }
}

/// The envelope of an authenticated call.
pub open spec fn call_envelope(method: Seq<char>, params: JsonValue, auth: Seq<char>, id: nat) -> RequestView {
    RequestView { jsonrpc: protocol_version(), method, params, id, auth: Some(auth) }
}

/// The JSON object that carries a request; `auth` is left out when absent.
pub open spec fn request_json(r: RequestView) -> JsonValue {
    let fields = seq![
        ("jsonrpc"@, JsonValue::Str(r.jsonrpc)),
        ("method"@, JsonValue::Str(r.method)),
        ("params"@, r.params),
        ("id"@, JsonValue::UInt(r.id)),
    ];
    match r.auth {
        Some(a) => JsonValue::Object(fields.push(("auth"@, JsonValue::Str(a)))),
        None => JsonValue::Object(fields),
    }
}

/// The string held by member `key`.
pub open spec fn text_member(v: JsonValue, key: Seq<char>) -> Option<Seq<char>> {
    match v.get(key) {
        Some(JsonValue::Str(t)) => Some(t),
        _ => None,
    }
}

/// The id held by member `key`, when it is an unsigned integer that fits `usize`.
pub open spec fn id_member(v: JsonValue, key: Seq<char>) -> Option<nat> {
    match v.get(key) {
        Some(JsonValue::UInt(n)) => if n <= usize::MAX {
            Some(n)
        } else {
            None
        },
        _ => None,
    }
}

/// Member `key` where it is present and not null.
pub open spec fn optional_member(v: JsonValue, key: Seq<char>) -> Option<JsonValue> {
    match v.get(key) {
        Some(JsonValue::Null) => None,
        other => other,
    }
}

/// The request that a JSON object carries, if it is one.
pub open spec fn request_from(v: JsonValue) -> Option<RequestView> {
    let version = text_member(v, "jsonrpc"@);
    let method = text_member(v, "method"@);
    let params = v.get("params"@);
    let id = id_member(v, "id"@);
    let auth = optional_member(v, "auth"@);
    if version is Some && method is Some && params is Some && id is Some && (auth is None
        || auth->0 is Str) {
        Some(
            RequestView {
                jsonrpc: version->0,
                method: method->0,
                params: params->0,
                id: id->0,
                auth: match auth {
                    Some(JsonValue::Str(a)) => Some(a),
                    _ => None,
                },
            },
        )
    } else {
        None
    }
}

/// The string held by member `key` of `j`.
fn string_member(j: &Json, key: &str) -> (r: Option<String>)
    ensures
        text_of(r) == text_member(j@, key@),
{
    match j.get(key) {
        Some(v) => match v.as_str() {
            Some(t) => Some(t.clone()),
            None => None,
        },
        None => None,
    }
}

/// The id held by member `key` of `j`.
fn usize_member(j: &Json, key: &str) -> (r: Option<usize>)
    ensures
        match id_member(j@, key@) {
            Some(n) => r == Some(n as usize),
            None => r is None,
        },
{
    match j.get(key) {
        Some(Json::UInt(n)) => if *n <= usize::MAX as u64 {
            Some(*n as usize)
        } else {
            None
        },
        _ => None,
    }
}

/// Member `key` of `j` where it is present and not null.
fn optional_json_member(j: &Json, key: &str) -> (r: Option<Json>)
    ensures
        match optional_member(j@, key@) {
            Some(v) => r is Some && r->0@ == v,
            None => r is None,
        },
{
    match j.get(key) {
        Some(Json::Null) => None,
        Some(v) => Some(v.deep_clone()),
        None => None,
    }
}

impl Request {
    /// The envelope of a login call with the given credentials and id.
    pub fn create_login_request(user: &str, password: &str, nonce: usize) -> (r: Request)
        ensures
            r@ == login_envelope(user@, password@, nonce as nat),
    {
        let members = vec![
            ("user".to_owned(), Json::Str(user.to_owned())),
            ("password".to_owned(), Json::Str(password.to_owned())),
        ];
        proof {
            lemma_object_view(members);
        }
        let params = Json::Object(members);
        assert(params@ == login_params(user@, password@)) by {
            assert(params@->Object_0 =~= login_params(user@, password@)->Object_0);
        }
        Request {
            jsonrpc: "2.0".to_owned(),
            method: "user.login".to_owned(),
            params,
            id: nonce,
            auth: None,
        }
    }

    /// The envelope of a call of `method` made with the token `auth`; the
    /// parameters are copied.
    pub fn create_request(method: &str, params: &Json, auth: &str, nonce: &usize) -> (r: Request)
        ensures
            r@ == call_envelope(method@, params@, auth@, *nonce as nat),
    {
        Request {
            jsonrpc: "2.0".to_owned(),
            method: method.to_owned(),
            params: params.deep_clone(),
            id: *nonce,
            auth: Some(auth.to_owned()),
        }
    }

    /// The JSON object that carries this request.
    pub fn to_json(&self) -> (r: Json)
        ensures
            r@ == request_json(self@),
    {
        let mut members: Vec<(String, Json)> = vec![
            ("jsonrpc".to_owned(), Json::Str(self.jsonrpc.clone())),
            ("method".to_owned(), Json::Str(self.method.clone())),
            ("params".to_owned(), self.params.deep_clone()),
            ("id".to_owned(), Json::UInt(self.id as u64)),
        ];
        match &self.auth {
            Some(a) => members.push(("auth".to_owned(), Json::Str(a.clone()))),
            None => {},
        }
        proof {
            lemma_object_view(members);
        }
        let r = Json::Object(members);
        assert(r@->Object_0 =~= request_json(self@)->Object_0);
        r
    }

    /// The request that `j` carries.
    pub fn from_json(j: &Json) -> (r: Result<Request, ApiError>)
        ensures
            match request_from(j@) {
                Some(v) => r is Ok && r->Ok_0@ == v,
                None => r is Err && r->Err_0 is MalformedEnvelope,
            },
    {
        let jsonrpc = match string_member(j, "jsonrpc") {
            Some(t) => t,
            None => return Err(ApiError::MalformedEnvelope),
        };
        let method = match string_member(j, "method") {
            Some(t) => t,
            None => return Err(ApiError::MalformedEnvelope),
        };
        let params = match j.get("params") {
            Some(v) => v.deep_clone(),
            None => return Err(ApiError::MalformedEnvelope),
        };
        let id = match usize_member(j, "id") {
            Some(n) => n,
            None => return Err(ApiError::MalformedEnvelope),
        };
        let auth = match optional_json_member(j, "auth") {
            None => None,
            Some(Json::Str(a)) => Some(a),
            Some(_) => return Err(ApiError::MalformedEnvelope),
        };
        Ok(Request { jsonrpc, method, params, id, auth })
    }
}

/// What a response envelope holds.
pub struct ResponseView {
    pub jsonrpc: Seq<char>,
    pub error: Option<JsonValue>,
    pub result: Option<JsonValue>,
    pub id: nat,
}

/// A JSON-RPC response.
#[derive(Debug)]
pub struct Response {
    pub jsonrpc: String,
    pub error: Option<Json>,
    pub result: Option<Json>,
    pub id: usize,
}

/// The value of an optional document.
pub open spec fn value_opt(j: Option<Json>) -> Option<JsonValue> {
    match j {
        Some(v) => Some(v@),
        None => None,
    }
}

impl View for Response {
    type V = ResponseView;

    open spec fn view(&self) -> ResponseView {
        ResponseView {
            jsonrpc: self.jsonrpc@,
            error: value_opt(self.error),
            result: value_opt(self.result),
            id: self.id as nat,
        }
    }
}

/// The response that a JSON object carries, if it is one; a null `result` or
/// `error` counts as absent.
pub open spec fn response_from(v: JsonValue) -> Option<ResponseView> {
    let version = text_member(v, "jsonrpc"@);
    let id = id_member(v, "id"@);
    if version is Some && id is Some {
        Some(
            ResponseView {
                jsonrpc: version->0,
                error: optional_member(v, "error"@),
                result: optional_member(v, "result"@),
                id: id->0,
            },
        )
    } else {
        None
    }
}

impl Response {
    /// The response that `j` carries.
    pub fn from_json(j: &Json) -> (r: Result<Response, ApiError>)
        ensures
            match response_from(j@) {
                Some(v) => r is Ok && r->Ok_0@ == v,
                None => r is Err && r->Err_0 is MalformedEnvelope,
            },
    {
        let jsonrpc = match string_member(j, "jsonrpc") {
            Some(t) => t,
            None => return Err(ApiError::MalformedEnvelope),
        };
        let id = match usize_member(j, "id") {
            Some(n) => n,
            None => return Err(ApiError::MalformedEnvelope),
        };
        let error = optional_json_member(j, "error");
        let result = optional_json_member(j, "result");
        Ok(Response { jsonrpc, error, result, id })
    }

    /// The session token that a login response carries.
    pub fn auth(&self) -> (r: Result<String, ApiError>)
        ensures
            match (self@.error, self@.result) {
                (Some(e), _) => r matches Err(ApiError::Authentication(x)) && x@ == e,
                (None, Some(JsonValue::Str(t))) => r is Ok && r->Ok_0@ == t,
                (None, Some(_)) => r is Err && r->Err_0 is TokenNotString,
                (None, None) => r is Err && r->Err_0 is MissingResult,
            },
    {
        match &self.error {
            Some(e) => return Err(ApiError::Authentication(e.deep_clone())),
            None => {},
        }
        match &self.result {
            Some(v) => match v.as_str() {
                Some(t) => Ok(t.clone()),
                None => Err(ApiError::TokenNotString),
            },
            None => Err(ApiError::MissingResult),
        }
    }

    /// The result of a call, as the server sent it.
    pub fn result_value(&self) -> (r: Result<Json, ApiError>)
        ensures
            match (self@.error, self@.result) {
                (Some(e), _) => r matches Err(ApiError::Remote(x)) && x@ == e,
                (None, Some(v)) => r is Ok && r->Ok_0@ == v,
                (None, None) => r is Err && r->Err_0 is MissingResult,
            },
    {
        match &self.error {
            Some(e) => return Err(ApiError::Remote(e.deep_clone())),
            None => {},
        }
        match &self.result {
            Some(v) => Ok(v.deep_clone()),
            None => Err(ApiError::MissingResult),
        }
    }
}

/// The member names of an envelope differ from one another.
proof fn lemma_keys_distinct()
    ensures
        "jsonrpc"@ != "method"@,
        "jsonrpc"@ != "params"@,
        "jsonrpc"@ != "id"@,
        "jsonrpc"@ != "auth"@,
        "method"@ != "params"@,
        "method"@ != "id"@,
        "method"@ != "auth"@,
        "params"@ != "id"@,
        "params"@ != "auth"@,
        "id"@ != "auth"@,
        "user"@ != "password"@,
{
    reveal_strlit("jsonrpc");
    reveal_strlit("method");
    reveal_strlit("params");
    reveal_strlit("id");
    reveal_strlit("auth");
    reveal_strlit("user");
    reveal_strlit("password");
    assert("method"@[0] != "params"@[0]);
    assert("params"@[0] != "auth"@[0]);
    assert("method"@[0] != "auth"@[0]);
    assert("jsonrpc"@.len() != "method"@.len());
    assert("jsonrpc"@.len() != "params"@.len());
    assert("jsonrpc"@.len() != "id"@.len());
    assert("jsonrpc"@.len() != "auth"@.len());
    assert("method"@.len() != "id"@.len());
    assert("params"@.len() != "id"@.len());
    assert("id"@.len() != "auth"@.len());
    assert("user"@.len() != "password"@.len());
}

/// Reading back the JSON object of a request gives the same request, field
/// for field.
pub proof fn lemma_request_round_trip(r: RequestView)
    requires
        r.id <= usize::MAX,
    ensures
        request_from(request_json(r)) == Some(r),
{
    lemma_keys_distinct();
    reveal_with_fuel(member_of, 6);
    let v = request_json(r);
    assert(v.get("jsonrpc"@) == Some(JsonValue::Str(r.jsonrpc)));
    assert(v.get("method"@) == Some(JsonValue::Str(r.method)));
    assert(v.get("params"@) == Some(r.params));
    assert(v.get("id"@) == Some(JsonValue::UInt(r.id)));
    match r.auth {
        Some(a) => assert(v.get("auth"@) == Some(JsonValue::Str(a))),
        None => assert(v.get("auth"@) is None),
    }
}

/// The JSON object of a login call has no `auth` member, and its `params`
/// hold the user name and the password and nothing else.
pub proof fn lemma_login_json(user: Seq<char>, password: Seq<char>, id: nat)
    ensures
        request_json(login_envelope(user, password, id)).get("auth"@) is None,
        request_json(login_envelope(user, password, id)).get("params"@) == Some(
            login_params(user, password),
        ),
        login_params(user, password)->Object_0.len() == 2,
        login_params(user, password).get("user"@) == Some(JsonValue::Str(user)),
        login_params(user, password).get("password"@) == Some(JsonValue::Str(password)),
{
    lemma_keys_distinct();
    reveal_with_fuel(member_of, 6);
    let v = request_json(login_envelope(user, password, id));
    assert(v.get("auth"@) is None);
    assert(v.get("params"@) == Some(login_params(user, password)));
    let p = login_params(user, password);
    assert(p.get("user"@) == Some(JsonValue::Str(user)));
    assert(p.get("password"@) == Some(JsonValue::Str(password)));
}

} // verus!
