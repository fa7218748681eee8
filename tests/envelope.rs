use zabbix_api::{ApiError, Json, Request, Response};

fn text(s: &str) -> Json {
    Json::Str(s.to_string())
}

fn object(members: Vec<(&str, Json)>) -> Json {
    Json::Object(members.into_iter().map(|(k, v)| (k.to_string(), v)).collect())
}

fn host_filter() -> Json {
    object(vec![("output", Json::Array(vec![text("hostid")]))])
}

#[test]
fn login_request_has_credentials_and_no_token() {
    let req = Request::create_login_request("api", "secret", 1);
    assert_eq!(req.jsonrpc, "2.0");
    assert_eq!(req.method, "user.login");
    assert_eq!(req.id, 1);
    assert_eq!(req.auth, None);
    assert_eq!(
        req.params,
        object(vec![("user", text("api")), ("password", text("secret"))])
    );
}

#[test]
fn login_json_has_no_auth_member() {
    let j = Request::create_login_request("api", "secret", 7).to_json();
    assert_eq!(j.get("auth"), None);
    assert_eq!(j.get("method"), Some(&text("user.login")));
    assert_eq!(j.get("id"), Some(&Json::UInt(7)));
    assert_eq!(j.get("jsonrpc"), Some(&text("2.0")));
}

#[test]
fn login_request_with_empty_credentials() {
    let req = Request::create_login_request("", "", 0);
    assert_eq!(req.params, object(vec![("user", text("")), ("password", text(""))]));
    assert_eq!(req.id, 0);
}

#[test]
fn call_request_copies_params() {
    let params = host_filter();
    let req = Request::create_request("host.get", &params, "abc123", &42);
    assert_eq!(req.params, params);
    assert_eq!(req.params, host_filter());
    assert_eq!(req.method, "host.get");
    assert_eq!(req.auth, Some("abc123".to_string()));
    assert_eq!(req.id, 42);
    assert_eq!(req.jsonrpc, "2.0");
}

#[test]
fn call_json_carries_auth() {
    let req = Request::create_request("item.get", &Json::Null, "tok", &usize::MAX);
    let j = req.to_json();
    assert_eq!(j.get("auth"), Some(&text("tok")));
    assert_eq!(j.get("params"), Some(&Json::Null));
    assert_eq!(j.get("id"), Some(&Json::UInt(usize::MAX as u64)));
}

#[test]
fn request_round_trip() {
    let nested = object(vec![
        ("filter", object(vec![("host", Json::Array(vec![text("a"), text("b")]))])),
        ("limit", Json::UInt(10)),
        ("offset", Json::Int(-3)),
        ("ratio", Json::Float("0.5".to_string())),
        ("flag", Json::Bool(true)),
        ("none", Json::Null),
    ]);
    let req = Request::create_request("host.get", &nested, "abc123", &5);
    let back = Request::from_json(&req.to_json()).unwrap();
    assert_eq!(back.jsonrpc, req.jsonrpc);
    assert_eq!(back.method, req.method);
    assert_eq!(back.params, req.params);
    assert_eq!(back.id, req.id);
    assert_eq!(back.auth, req.auth);

    let login = Request::create_login_request("u", "p", 1);
    let back = Request::from_json(&login.to_json()).unwrap();
    assert_eq!(back.auth, None);
    assert_eq!(back.params, login.params);
    assert_eq!(back.method, "user.login");
}

#[test]
fn request_from_json_rejects_bad_shapes() {
    assert!(matches!(Request::from_json(&Json::Null), Err(ApiError::MalformedEnvelope)));
    let no_method = object(vec![
        ("jsonrpc", text("2.0")),
        ("params", Json::Null),
        ("id", Json::UInt(1)),
    ]);
    assert!(matches!(Request::from_json(&no_method), Err(ApiError::MalformedEnvelope)));
    let bad_auth = object(vec![
        ("jsonrpc", text("2.0")),
        ("method", text("m")),
        ("params", Json::Null),
        ("id", Json::UInt(1)),
        ("auth", Json::UInt(3)),
    ]);
    assert!(matches!(Request::from_json(&bad_auth), Err(ApiError::MalformedEnvelope)));
    let null_auth = object(vec![
        ("jsonrpc", text("2.0")),
        ("method", text("m")),
        ("params", Json::Null),
        ("id", Json::UInt(1)),
        ("auth", Json::Null),
    ]);
    assert_eq!(Request::from_json(&null_auth).unwrap().auth, None);
}

#[test]
fn response_from_json_reads_fields() {
    let j = object(vec![
        ("jsonrpc", text("2.0")),
        ("id", Json::UInt(3)),
        ("result", Json::Array(vec![])),
        ("error", Json::Null),
    ]);
    let res = Response::from_json(&j).unwrap();
    assert_eq!(res.jsonrpc, "2.0");
    assert_eq!(res.id, 3);
    assert_eq!(res.result, Some(Json::Array(vec![])));
    assert_eq!(res.error, None);
}

#[test]
fn response_from_json_rejects_bad_id() {
    let negative = object(vec![("jsonrpc", text("2.0")), ("id", Json::Int(-1))]);
    assert!(matches!(Response::from_json(&negative), Err(ApiError::MalformedEnvelope)));
    let missing = object(vec![("jsonrpc", text("2.0")), ("result", Json::Null)]);
    assert!(matches!(Response::from_json(&missing), Err(ApiError::MalformedEnvelope)));
    let no_version = object(vec![("id", Json::UInt(1))]);
    assert!(matches!(Response::from_json(&no_version), Err(ApiError::MalformedEnvelope)));
}

#[test]
fn auth_token_errors() {
    let ok = Response { jsonrpc: "2.0".to_string(), error: None, result: Some(text("t")), id: 1 };
    assert_eq!(ok.auth().unwrap(), "t");
    let not_string =
        Response { jsonrpc: "2.0".to_string(), error: None, result: Some(Json::UInt(5)), id: 1 };
    assert!(matches!(not_string.auth(), Err(ApiError::TokenNotString)));
    let missing = Response { jsonrpc: "2.0".to_string(), error: None, result: None, id: 1 };
    assert!(matches!(missing.auth(), Err(ApiError::MissingResult)));
    let refused = Response {
        jsonrpc: "2.0".to_string(),
        error: Some(text("no")),
        result: Some(text("t")),
        id: 1,
    };
    assert!(matches!(refused.auth(), Err(ApiError::Authentication(e)) if e == text("no")));
}

#[test]
fn result_value_errors() {
    let remote = Response {
        jsonrpc: "2.0".to_string(),
        error: Some(Json::UInt(1)),
        result: None,
        id: 1,
    };
    assert!(matches!(remote.result_value(), Err(ApiError::Remote(e)) if e == Json::UInt(1)));
    let missing = Response { jsonrpc: "2.0".to_string(), error: None, result: None, id: 1 };
    assert!(matches!(missing.result_value(), Err(ApiError::MissingResult)));
}

#[test]
fn json_get_takes_first_member() {
    let j = object(vec![("k", Json::UInt(1)), ("k", Json::UInt(2)), ("other", Json::Null)]);
    assert_eq!(j.get("k"), Some(&Json::UInt(1)));
    assert_eq!(j.get("other"), Some(&Json::Null));
    assert_eq!(j.get("absent"), None);
    assert_eq!(Json::Array(vec![]).get("k"), None);
    assert_eq!(text("k").as_str(), Some(&"k".to_string()));
    assert_eq!(Json::Null.as_str(), None);
}

#[test]
fn deep_clone_copies_nested_values() {
    let j = object(vec![("a", Json::Array(vec![host_filter(), Json::Int(-9)]))]);
    assert_eq!(j.deep_clone(), j);
}
