use c_lightning_http_plugin::init_info::InitInfo;
use c_lightning_http_plugin::json::JsonValue;
use c_lightning_http_plugin::rpc::{
    JsonRpcV2Id, LightningConfig, LightningInit, LightningOptions, RpcResult,
};
use c_lightning_http_plugin::server::{
    handle_auth, internal_error_answer, route_request, HttpAction, METHOD_NOT_ALLOWED_BODY,
    REQUEST_TERMINATOR, UNAUTHORIZED_BODY,
};

#[test]
fn matching_header_is_authorized() {
    let expected = "Basic bGlnaHRuaW5nOnNlY3JldA==";
    assert!(handle_auth(Some(expected.as_bytes()), Some(expected)));
}

#[test]
fn other_or_missing_header_is_refused() {
    let expected = "Basic bGlnaHRuaW5nOnNlY3JldA==";
    assert!(!handle_auth(Some(b"Basic bGlnaHRuaW5nOnNlY3JldB=="), Some(expected)));
    assert!(!handle_auth(Some(b"Basic"), Some(expected)));
    assert!(!handle_auth(None, Some(expected)));
}

#[test]
fn nothing_is_authorized_without_a_password() {
    assert!(!handle_auth(Some(b""), None));
    assert!(!handle_auth(Some(b"Basic bGlnaHRuaW5nOg=="), None));
    assert!(!handle_auth(None, None));
}

#[test]
fn only_authorized_posts_are_forwarded() {
    assert!(matches!(route_request(true, true), HttpAction::Forward));
    match route_request(true, false) {
        HttpAction::Reject(status, body) => {
            assert_eq!(status, 401);
            assert_eq!(body, UNAUTHORIZED_BODY);
        }
        other => panic!("unexpected {:?}", other),
    }
    for authorized in [true, false] {
        match route_request(false, authorized) {
            HttpAction::Reject(status, body) => {
                assert_eq!(status, 405);
                assert_eq!(body, METHOD_NOT_ALLOWED_BODY);
            }
            other => panic!("unexpected {:?}", other),
        }
    }
}

#[test]
fn rejection_bodies_are_json_rpc_errors() {
    assert_eq!(
        UNAUTHORIZED_BODY,
        "{\"id\":null,\"jsonrpc\":\"2.0\",\"error\":{\"code\":5,\"message\":\"Unauthorized\"}}"
    );
    assert_eq!(
        METHOD_NOT_ALLOWED_BODY,
        "{\"id\":null,\"jsonrpc\":\"2.0\",\"error\":{\"code\":4,\"message\":\"Method Not Allowed\"}}"
    );
    assert_eq!(REQUEST_TERMINATOR, *b"\n\n");
}

#[test]
fn failed_forwarding_is_an_internal_error() {
    let res = internal_error_answer("connection refused".to_string());
    assert!(matches!(res.id, JsonRpcV2Id::Null));
    match res.result {
        RpcResult::Error(e) => {
            assert_eq!(e.code, 0);
            assert_eq!(e.message, "Internal Server Error");
            assert!(matches!(e.data, Some(JsonValue::String(ref s)) if s == "connection refused"));
        }
        other => panic!("unexpected {:?}", other),
    }
}

fn configured(user: &str, pass: &str) -> InitInfo {
    InitInfo::from(LightningInit {
        options: LightningOptions {
            http_user: user.to_string(),
            http_pass: pass.to_string(),
            http_port: 8080,
        },
        configuration: LightningConfig {
            lightning_dir: "/ln".to_string(),
            rpc_file: "lightning-rpc".to_string(),
            startup: false,
        },
    })
}

#[test]
fn configured_credentials_let_requests_through() {
    let info = configured("lightning", "secret");
    let expected = info.auth_header.as_deref();
    assert!(handle_auth(Some(b"Basic bGlnaHRuaW5nOnNlY3JldA=="), expected));
    assert!(!handle_auth(Some(b"Basic bGlnaHRuaW5nOnNlY3JldA"), expected));
}

#[test]
fn without_password_every_request_is_refused() {
    let info = configured("lightning", "");
    let expected = info.auth_header.as_deref();
    for header in [&b""[..], &b"Basic bGlnaHRuaW5nOg=="[..], &b"Basic "[..]] {
        assert!(!handle_auth(Some(header), expected));
    }
    assert!(!handle_auth(None, expected));
}
