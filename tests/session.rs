use zabbix_api::{ApiError, Json, Response, ZabbixApi};

fn text(s: &str) -> Json {
    Json::Str(s.to_string())
}

fn object(members: Vec<(&str, Json)>) -> Json {
    Json::Object(members.into_iter().map(|(k, v)| (k.to_string(), v)).collect())
}

fn session() -> ZabbixApi {
    let answer = object(vec![
        ("jsonrpc", text("2.0")),
        ("id", Json::UInt(1)),
        ("result", text("abc123")),
    ]);
    let res = Response::from_json(&answer).unwrap();
    ZabbixApi::new("http://localhost/api_jsonrpc.php", &res).unwrap()
}

#[test]
fn login_request_uses_first_id() {
    let req = ZabbixApi::login_request("api", "pw");
    assert_eq!(req.id, 1);
    assert_eq!(req.method, "user.login");
    assert_eq!(req.auth, None);
}

#[test]
fn connect_stores_token() {
    let api = session();
    assert_eq!(api.auth, "abc123");
    assert_eq!(api.url, "http://localhost/api_jsonrpc.php");
    assert_eq!(api.nonce, 1);
}

#[test]
fn connect_fails_on_error_answer() {
    let answer = object(vec![
        ("jsonrpc", text("2.0")),
        ("id", Json::UInt(1)),
        (
            "error",
            object(vec![("code", Json::Int(-32602)), ("message", text("Invalid params"))]),
        ),
    ]);
    let res = Response::from_json(&answer).unwrap();
    let expected = object(vec![("code", Json::Int(-32602)), ("message", text("Invalid params"))]);
    match ZabbixApi::new("http://localhost/api_jsonrpc.php", &res) {
        Err(ApiError::Authentication(e)) => assert_eq!(e, expected),
        other => panic!("expected an authentication error, got {:?}", other),
    }
}

#[test]
fn connect_fails_without_token() {
    let answer = object(vec![("jsonrpc", text("2.0")), ("id", Json::UInt(1))]);
    let res = Response::from_json(&answer).unwrap();
    assert!(matches!(ZabbixApi::new("u", &res), Err(ApiError::MissingResult)));
    let answer = object(vec![
        ("jsonrpc", text("2.0")),
        ("id", Json::UInt(1)),
        ("result", Json::Bool(true)),
    ]);
    let res = Response::from_json(&answer).unwrap();
    assert!(matches!(ZabbixApi::new("u", &res), Err(ApiError::TokenNotString)));
}

#[test]
fn host_get_returns_echoed_params() {
    let mut api = session();
    let params = object(vec![("output", Json::Array(vec![text("hostid")]))]);
    let req = api.host_get(&params).unwrap();
    assert_eq!(req.method, "host.get");
    assert_eq!(req.auth, Some("abc123".to_string()));
    let echo = Response {
        jsonrpc: "2.0".to_string(),
        error: None,
        result: Some(req.params.deep_clone()),
        id: req.id,
    };
    assert_eq!(
        echo.result_value().unwrap(),
        object(vec![("output", Json::Array(vec![text("hostid")]))])
    );
}

#[test]
fn request_ids_increase() {
    let mut api = session();
    let a = api.request("host.get", &Json::Null).unwrap();
    let b = api.request("item.get", &Json::Null).unwrap();
    assert_eq!(a.id, 2);
    assert_eq!(b.id, 3);
    assert_eq!(api.nonce, 3);
    assert_eq!(b.method, "item.get");
}

#[test]
fn request_ids_exhausted() {
    let mut api = session();
    api.nonce = usize::MAX;
    assert!(matches!(api.host_get(&Json::Null), Err(ApiError::IdsExhausted)));
    assert_eq!(api.nonce, usize::MAX);
    assert_eq!(api.auth, "abc123");
}
