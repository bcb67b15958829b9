use c_lightning_http_plugin::init_info::InitInfo;
use c_lightning_http_plugin::json::JsonValue;
use c_lightning_http_plugin::rpc::{
    complete_init, default_pass, default_port, default_user, deser_str_num, handle_request,
    init_argument, plugin_manifest, JsonRpcV2, JsonRpcV2Id, LightningConfig, LightningInit,
    LightningOptions, ResponsePlan, RpcError, RpcParams, RpcReq, RpcRes, RpcResult, StrNum,
};

fn text(v: &JsonValue) -> &str {
    match v {
        JsonValue::String(s) => s.as_str(),
        other => panic!("not a string: {:?}", other),
    }
}

fn members(v: &JsonValue) -> &Vec<(String, JsonValue)> {
    match v {
        JsonValue::Object(m) => m,
        other => panic!("not an object: {:?}", other),
    }
}

fn error_of(res: &RpcRes) -> &RpcError {
    match &res.result {
        RpcResult::Error(e) => e,
        other => panic!("not an error: {:?}", other),
    }
}

fn request(id: Option<JsonRpcV2Id>, method: &str, params: RpcParams) -> RpcReq {
    RpcReq { id, jsonrpc: JsonRpcV2, method: method.to_string(), params }
}

fn respond(plan: ResponsePlan) -> RpcRes {
    match plan {
        ResponsePlan::Respond(res) => res,
        other => panic!("not an answer: {:?}", other),
    }
}

fn num_id(res: &RpcRes) -> &str {
    match &res.id {
        JsonRpcV2Id::Num(n) => n.as_str(),
        other => panic!("not a number id: {:?}", other),
    }
}

#[test]
fn version_two_is_accepted() {
    assert!(JsonRpcV2::from_version("2.0").is_ok());
    assert_eq!(JsonRpcV2.version(), "2.0");
    assert!(JsonRpcV2::from_version(JsonRpcV2.version()).is_ok());
    let _default: JsonRpcV2 = Default::default();
}

#[test]
fn other_versions_are_refused_with_their_text() {
    assert_eq!(JsonRpcV2::from_version("1.0").unwrap_err(), "invalid RPC version: 1.0");
    assert_eq!(JsonRpcV2::from_version("").unwrap_err(), "invalid RPC version: ");
}

#[test]
fn defaults_are_those_of_the_readme() {
    assert_eq!(default_user(), "lightning");
    assert_eq!(default_pass(), "");
    assert_eq!(default_port(), 8080);
}

#[test]
fn port_given_as_number_or_digits() {
    assert_eq!(deser_str_num(StrNum::Num(9735)), Ok(9735));
    assert_eq!(deser_str_num(StrNum::Str("8080".to_string())), Ok(8080));
    assert_eq!(deser_str_num(StrNum::Str("+80".to_string())), Ok(80));
    assert_eq!(deser_str_num(StrNum::Str("0065535".to_string())), Ok(65535));
}

#[test]
fn port_as_number_and_as_its_decimal_text_agree() {
    for n in [0u16, 7, 10, 8080, 9735, 65535] {
        assert_eq!(deser_str_num(StrNum::Str(n.to_string())), deser_str_num(StrNum::Num(n)));
    }
}

#[test]
fn refused_port_text_carries_the_parse_error() {
    assert_eq!(
        deser_str_num(StrNum::Str("80a".to_string())),
        Err("invalid digit found in string".to_string())
    );
    assert_eq!(
        deser_str_num(StrNum::Str("65536".to_string())),
        Err("number too large to fit in target type".to_string())
    );
}

#[test]
fn port_text_that_is_no_u16_is_refused() {
    assert!(deser_str_num(StrNum::Str("65536".to_string())).is_err());
    assert!(deser_str_num(StrNum::Str("".to_string())).is_err());
    assert!(deser_str_num(StrNum::Str("80a".to_string())).is_err());
    assert!(deser_str_num(StrNum::Str(" 80".to_string())).is_err());
    assert!(deser_str_num(StrNum::Str("-1".to_string())).is_err());
    assert!(deser_str_num(StrNum::Str("+".to_string())).is_err());
    assert!(deser_str_num(StrNum::Str("-0".to_string())).is_err());
}

#[test]
fn result_converts_to_a_std_result() {
    let ok = RpcResult::Result(JsonValue::Bool(true)).res();
    assert!(matches!(ok, Ok(JsonValue::Bool(true))));
    let err: Result<JsonValue, RpcError> =
        RpcResult::Error(RpcError { code: 7, message: "m", data: None }).into();
    assert_eq!(err.unwrap_err().code, 7);
}

#[test]
fn init_argument_is_the_last_positional_parameter() {
    let arg = init_argument(RpcParams::ByPosition(vec![JsonValue::Null, JsonValue::Bool(false)]));
    assert!(matches!(arg, Ok(JsonValue::Bool(false))));
}

#[test]
fn init_argument_of_named_parameters_is_their_object() {
    let arg = init_argument(RpcParams::ByName(vec![("options".to_string(), JsonValue::Null)]));
    let arg = arg.unwrap();
    assert_eq!(members(&arg).len(), 1);
    assert_eq!(members(&arg)[0].0, "options");
}

#[test]
fn init_without_arguments_is_refused() {
    assert_eq!(init_argument(RpcParams::ByPosition(vec![])).unwrap_err(), "no arguments supplied");
    let res = respond(handle_request(Ok(request(
        Some(JsonRpcV2Id::Num("4".to_string())),
        "init",
        RpcParams::ByPosition(vec![]),
    ))));
    assert_eq!(num_id(&res), "4");
    let e = error_of(&res);
    assert_eq!(e.code, 1);
    assert_eq!(e.message, "error processing init");
    assert_eq!(text(e.data.as_ref().unwrap()), "no arguments supplied");
}

#[test]
fn init_with_argument_asks_for_the_configuration() {
    let plan = handle_request(Ok(request(
        Some(JsonRpcV2Id::Str("a".to_string())),
        "init",
        RpcParams::ByPosition(vec![JsonValue::Bool(true)]),
    )));
    match plan {
        ResponsePlan::Initialize(JsonRpcV2Id::Str(id), JsonValue::Bool(true)) => assert_eq!(id, "a"),
        other => panic!("unexpected {:?}", other),
    }
}

#[test]
fn notifications_are_not_answered() {
    for method in ["init", "getmanifest", "other"] {
        let plan = handle_request(Ok(request(None, method, RpcParams::ByPosition(vec![]))));
        assert!(matches!(plan, ResponsePlan::Ignore));
    }
}

#[test]
fn unreadable_message_gets_a_parse_error() {
    let res = respond(handle_request(Err("EOF while parsing".to_string())));
    assert!(matches!(res.id, JsonRpcV2Id::Null));
    let e = error_of(&res);
    assert_eq!(e.code, 3);
    assert_eq!(e.message, "parse error");
    assert_eq!(text(e.data.as_ref().unwrap()), "EOF while parsing");
}

#[test]
fn unknown_method_is_refused_with_its_name() {
    let res = respond(handle_request(Ok(request(
        Some(JsonRpcV2Id::Num("12".to_string())),
        "getinfo",
        RpcParams::ByName(vec![]),
    ))));
    assert_eq!(num_id(&res), "12");
    let e = error_of(&res);
    assert_eq!(e.code, 2);
    assert_eq!(e.message, "unknown method");
    assert_eq!(text(e.data.as_ref().unwrap()), "getinfo");
}

#[test]
fn getmanifest_is_answered_with_the_manifest() {
    let res = respond(handle_request(Ok(request(
        Some(JsonRpcV2Id::Num("1".to_string())),
        "getmanifest",
        RpcParams::ByName(vec![]),
    ))));
    assert_eq!(num_id(&res), "1");
    match &res.result {
        RpcResult::Result(v) => assert_eq!(members(v).len(), 6),
        other => panic!("unexpected {:?}", other),
    }
}

#[test]
fn manifest_declares_the_three_options_with_their_defaults() {
    let m = plugin_manifest();
    let m = members(&m);
    let keys: Vec<&str> = m.iter().map(|(k, _)| k.as_str()).collect();
    assert_eq!(keys, vec!["options", "rpcmethods", "subscriptions", "hooks", "features", "dynamic"]);
    let options = match &m[0].1 {
        JsonValue::Array(items) => items,
        other => panic!("unexpected {:?}", other),
    };
    assert_eq!(options.len(), 3);
    let names: Vec<&str> = options.iter().map(|o| text(&members(o)[0].1)).collect();
    assert_eq!(names, vec!["http-user", "http-pass", "http-port"]);
    assert_eq!(text(&members(&options[0])[2].1), "lightning");
    assert_eq!(text(&members(&options[1])[2].1), "");
    assert!(matches!(&members(&options[2])[2].1, JsonValue::Number(n) if n == "8080"));
    assert_eq!(text(&members(&options[2])[1].1), "int");
    assert_eq!(
        text(&members(&options[1])[3].1),
        "Basic-Auth password header for http authentication, not setting this will result in requests being rejected"
    );
    for (_, v) in members(&m[4].1) {
        assert_eq!(text(v), "00000000");
    }
    assert!(matches!(m[5].1, JsonValue::Bool(true)));
}

fn lightning_init(pass: &str) -> LightningInit {
    LightningInit {
        options: LightningOptions {
            http_user: "lightning".to_string(),
            http_pass: pass.to_string(),
            http_port: 8181,
        },
        configuration: LightningConfig {
            lightning_dir: "/home/ln/.lightning/bitcoin".to_string(),
            rpc_file: "lightning-rpc".to_string(),
            startup: true,
        },
    }
}

#[test]
fn init_info_from_the_configuration() {
    let info = InitInfo::from(lightning_init("secret"));
    assert_eq!(info.socket_path, "/home/ln/.lightning/bitcoin/lightning-rpc");
    assert_eq!(info.auth_header.as_deref(), Some("Basic bGlnaHRuaW5nOnNlY3JldA=="));
    assert_eq!(info.http_port, 8181);
}

#[test]
fn init_info_without_password_has_no_auth_header() {
    let info: InitInfo = lightning_init("").into();
    assert_eq!(info.auth_header, None);
}

#[test]
fn completed_init_answers_an_empty_object_and_hands_on_the_info() {
    let (res, info) = complete_init(JsonRpcV2Id::Num("0".to_string()), Ok(lightning_init("pw")));
    assert_eq!(num_id(&res), "0");
    match &res.result {
        RpcResult::Result(v) => assert!(members(v).is_empty()),
        other => panic!("unexpected {:?}", other),
    }
    assert_eq!(info.unwrap().http_port, 8181);
}

#[test]
fn failed_init_is_refused_with_the_error_text() {
    let (res, info) = complete_init(JsonRpcV2Id::Null, Err("missing field `options`".to_string()));
    assert!(info.is_none());
    let e = error_of(&res);
    assert_eq!(e.code, 1);
    assert_eq!(e.message, "error processing init");
    assert_eq!(text(e.data.as_ref().unwrap()), "missing field `options`");
}
