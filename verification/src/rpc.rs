//! The plugin's side of lightningd's JSON-RPC protocol on stdin/stdout: the
//! messages, the answer to each request, and the configuration that `init`
//! carries.

use vstd::prelude::*;
use vstd::string::*;
use crate::json::{JsonValue, has_unique_keys, is_json_text, is_json_number, is_empty_json_array, is_empty_json_object, has_key, member};
use crate::init_info::{InitInfo, InitInfoView, joined_path, expected_auth_header, join_path, auth_header_for};

verus! {

/// The id of a JSON-RPC request: a number (held as its JSON text), a string,
/// or null.
#[derive(Clone, Debug)]
pub enum JsonRpcV2Id {
    Num(String),
    Str(String),
    Null,
}

/// The `jsonrpc` member of a message, which is always `"2.0"`.
#[derive(Clone, Copy, Debug, PartialEq, Eq, Structural)]
pub struct JsonRpcV2;

/// The protocol version that the `jsonrpc` member carries.
pub open spec fn rpc_version_text() -> Seq<char> {
    seq!['2', '.', '0']
}

/// Whether a `jsonrpc` member with this text is accepted.
pub open spec fn accepts_version(text: Seq<char>) -> bool {
    text == rpc_version_text()
}

/// The message with which a `jsonrpc` member other than `"2.0"` is refused.
pub open spec fn invalid_version_message(version: Seq<char>) -> Seq<char> {
    "invalid RPC version: "@ + version
}

impl Default for JsonRpcV2 {
    fn default() -> (v: JsonRpcV2)
        ensures
            v == JsonRpcV2,
    {
        JsonRpcV2
    }
}

impl JsonRpcV2 {
    /// The text that a `jsonrpc` member holds.
    pub fn version(&self) -> (text: &'static str)
        ensures
            text@ == rpc_version_text(),
    {
        proof {
            reveal_strlit("2.0");
            assert("2.0"@ =~= rpc_version_text());
        }
        "2.0"
    }

    /// Reads the text of a `jsonrpc` member: `"2.0"` is accepted, anything
    /// else is refused with a message that quotes it.
    pub fn from_version(version: &str) -> (parsed: Result<JsonRpcV2, String>)
        ensures
            parsed is Ok <==> accepts_version(version@),
            match parsed {
                Ok(v) => v == JsonRpcV2,
                Err(message) => message@ == invalid_version_message(version@),
            },
    {
        let expected = "2.0".to_owned();
        let given = version.to_owned();
        proof {
            reveal_strlit("2.0");
            assert("2.0"@ =~= rpc_version_text());
        }
        if given == expected {
            Ok(JsonRpcV2)
        } else {
            let mut message = "invalid RPC version: ".to_owned();
            message.append(version);
            Err(message)
        }
    }
}

/// What a version written by [`JsonRpcV2::version`] is read back as by
/// [`JsonRpcV2::from_version`]: it is accepted.
pub proof fn lemma_version_round_trip()
    ensures
        accepts_version(rpc_version_text()),
{
}

/// The parameters of a request: a list, or named members.
#[derive(Debug)]
pub enum RpcParams {
    ByPosition(Vec<JsonValue>),
    ByName(Vec<(String, JsonValue)>),
}

/// A request (or, without an id, a notification) from lightningd.
#[derive(Debug)]
pub struct RpcReq {
    pub id: Option<JsonRpcV2Id>,
    pub jsonrpc: JsonRpcV2,
    pub method: String,
    pub params: RpcParams,
}

/// An error answer.
#[derive(Debug)]
pub struct RpcError {
    pub code: i64,
    pub message: &'static str,
    pub data: Option<JsonValue>,
}

/// The outcome that an answer carries: a result or an error.
#[derive(Debug)]
pub enum RpcResult {
    Result(JsonValue),
    Error(RpcError),
}

/// An answer to a request.
#[derive(Debug)]
pub struct RpcRes {
    pub id: JsonRpcV2Id,
    pub jsonrpc: JsonRpcV2,
    pub result: RpcResult,
}

/// An outcome as a `Result`.
pub open spec fn result_of(r: RpcResult) -> Result<JsonValue, RpcError> {
    match r {
        RpcResult::Result(value) => Ok(value),
        RpcResult::Error(error) => Err(error),
    }
}

impl RpcResult {
    /// The outcome as a `Result`.
    pub fn res(self) -> (r: Result<JsonValue, RpcError>)
        ensures
            r == result_of(self),
    {
        match self {
            RpcResult::Result(value) => Ok(value),
            RpcResult::Error(error) => Err(error),
        }
    }
}

impl From<RpcResult> for Result<JsonValue, RpcError> {
    fn from(r: RpcResult) -> (converted: Result<JsonValue, RpcError>) {
        r.res()
    }
}

impl vstd::std_specs::convert::FromSpecImpl<RpcResult> for Result<JsonValue, RpcError> {
    open spec fn obeys_from_spec() -> bool {
        true
    }

    open spec fn from_spec(r: RpcResult) -> Result<JsonValue, RpcError> {
        result_of(r)
    }
}

/// The parameters of lightningd's `init` call that the plugin reads.
#[derive(Clone, Debug)]
pub struct LightningInit {
    pub options: LightningOptions,
    pub configuration: LightningConfig,
}

/// The plugin's options, as lightningd passes them in `init`.
#[derive(Clone, Debug)]
pub struct LightningOptions {
    pub http_user: String,
    pub http_pass: String,
    pub http_port: u16,
}

/// The part of lightningd's configuration that `init` passes and that the
/// plugin reads.
#[derive(Clone, Debug)]
pub struct LightningConfig {
    pub lightning_dir: String,
    pub rpc_file: String,
    pub startup: bool,
}

/// The user name for Basic authentication when `http-user` is not given.
pub open spec fn default_user_text() -> Seq<char> {
    "lightning"@
}

/// The password when `http-pass` is not given: none, so that every request
/// is refused.
pub open spec fn default_pass_text() -> Seq<char> {
    Seq::empty()
}

/// The port when `http-port` is not given.
pub open spec fn default_port_number() -> u16 {
    8080
}

/// The user name for Basic authentication when `http-user` is not given.
pub fn default_user() -> (user: String)
    ensures
        user@ == default_user_text(),
{
    "lightning".to_owned()
}

/// The password when `http-pass` is not given.
pub fn default_pass() -> (pass: String)
    ensures
        pass@ == default_pass_text(),
{
    proof {
        reveal_strlit("");
    }
    "".to_owned()
}

/// The port when `http-port` is not given.
pub fn default_port() -> (port: u16)
    ensures
        port == default_port_number(),
{
    8080
}

/// The decimal value of a text of ASCII digits.
pub open spec fn digits_value(digits: Seq<char>) -> int
    decreases digits.len(),
{
    if digits.len() == 0 {
        0
    } else {
        digits_value(digits.drop_last()) * 10 + (digits.last() as int - '0' as int)
    }
}

/// Every character of `text` is an ASCII digit.
pub open spec fn all_ascii_digits(text: Seq<char>) -> bool {
    forall|i: int| 0 <= i < text.len() ==> '0' <= #[trigger] text[i] <= '9'
}

/// The `u16` that a decimal text denotes: an optional `+` followed by one or
/// more ASCII digits whose value fits in a `u16`; `None` for any other text.
pub open spec fn decimal_u16(text: Seq<char>) -> Option<u16> {
    let digits = if text.len() > 0 && text[0] == '+' { text.drop_first() } else { text };
    if digits.len() > 0 && all_ascii_digits(digits) && digits_value(digits) <= u16::MAX {
        Some(digits_value(digits) as u16)
    } else {
        None
    }
}

/// Names the text of the error with which `str::parse::<u16>` refuses
/// `text`: the `Display` of the `ParseIntError` that it returns.
pub uninterp spec fn u16_parse_error_text(text: Seq<char>) -> Seq<char>;

/// Reads a decimal `u16` with `str::parse::<u16>`: an optional `+` followed
/// by only digits, as its documentation describes; on failure, the text of
/// its `ParseIntError`.
#[verifier::external_body]
fn parse_u16(text: &str) -> (parsed: Result<u16, String>)
    ensures
        match parsed {
            Ok(v) => decimal_u16(text@) == Some(v),
            Err(message) => decimal_u16(text@) is None && message@ == u16_parse_error_text(text@),
        },
{
    match text.parse::<u16>() {
        Ok(v) => Ok(v),
        Err(e) => Err(e.to_string()),
    }
}

/// The digit character of `d`, for `0 <= d < 10`.
pub open spec fn decimal_digit(d: int) -> char {
    (48 + d) as char
}

/// The decimal text of `n`, without leading zeros.
pub open spec fn decimal_text(n: nat) -> Seq<char>
    decreases n,
{
    if n < 10 {
        seq![decimal_digit(n as int)]
    } else {
        decimal_text(n / 10).push(decimal_digit((n % 10) as int))
    }
}

proof fn lemma_decimal_text_digits(n: nat)
    ensures
        decimal_text(n).len() > 0,
        all_ascii_digits(decimal_text(n)),
        digits_value(decimal_text(n)) == n,
    decreases n,
{
    if n >= 10 {
        lemma_decimal_text_digits(n / 10);
        let t = decimal_text(n);
        assert(t.drop_last() =~= decimal_text(n / 10));
        assert(t.last() as int == 48 + n % 10);
        assert(n == (n / 10) * 10 + n % 10);
        assert(digits_value(t.drop_last()) == n / 10);
        assert(digits_value(t) == digits_value(t.drop_last()) * 10 + (t.last() as int - '0' as int));
        assert forall|i: int| 0 <= i < t.len() implies '0' <= #[trigger] t[i] <= '9' by {
            if i < t.len() - 1 {
                assert(t[i] == decimal_text(n / 10)[i]);
            }
        }
    } else {
        assert(decimal_text(n).drop_last() =~= Seq::<char>::empty());
        assert(decimal_text(n).last() as int == 48 + n);
        assert(digits_value(decimal_text(n).drop_last()) == 0);
    }
}

/// A port given as a number and one given as its decimal text are the same
/// port: the decimal text of every `u16` reads back as it.
pub proof fn lemma_decimal_text_reads_back(n: u16)
    ensures
        decimal_u16(decimal_text(n as nat)) == Some(n),
{
    lemma_decimal_text_digits(n as nat);
}

/// A port as lightningd may pass it: a string of digits or a number.
#[derive(Debug)]
pub enum StrNum {
    Str(String),
    Num(u16),
}

/// The port that `http-port` gives: a number is taken as it is, a string is
/// read as a decimal `u16`; a string that is not one is refused with the
/// message of the failed parse.
pub fn deser_str_num(sn: StrNum) -> (port: Result<u16, String>)
    ensures
        match sn {
            StrNum::Num(n) => port == Ok::<u16, String>(n),
            StrNum::Str(s) => match port {
                Ok(v) => decimal_u16(s@) == Some(v),
                Err(message) => decimal_u16(s@) is None && message@ == u16_parse_error_text(s@),
            },
        },
{
    match sn {
        StrNum::Str(s) => parse_u16(s.as_str()),
        StrNum::Num(n) => Ok(n),
    }
}

/// What the plugin learns from `init`: the socket is the RPC file in the
/// lightning directory, requests must carry Basic credentials of the
/// configured user and password (none are accepted without a password), and
/// the server listens on the configured port.
pub open spec fn init_info_of(li: LightningInit) -> InitInfoView {
    InitInfoView {
        socket_path: joined_path(li.configuration.lightning_dir@, li.configuration.rpc_file@),
        auth_header: expected_auth_header(li.options.http_user@, li.options.http_pass@),
        http_port: li.options.http_port,
    }
}

/// The port the server listens on is the configured `http-port`, for every
/// configuration: whatever the lightning directory, the RPC file, whether
/// lightningd is starting up, or the user and password.
pub proof fn lemma_port_is_configured_port(li: LightningInit)
    ensures
        init_info_of(li).http_port == li.options.http_port,
{
}

/// The derived settings depend only on what they are derived from: the
/// socket path on the directory and the RPC file, the header on the user and
/// password, the port on the configured port; two configurations that agree
/// on these give the same settings.
pub proof fn lemma_init_info_depends_on_its_sources(a: LightningInit, b: LightningInit)
    requires
        a.configuration.lightning_dir@ == b.configuration.lightning_dir@,
        a.configuration.rpc_file@ == b.configuration.rpc_file@,
        a.options.http_user@ == b.options.http_user@,
        a.options.http_pass@ == b.options.http_pass@,
        a.options.http_port == b.options.http_port,
    ensures
        init_info_of(a) == init_info_of(b),
{
}

impl InitInfo {
    /// What the plugin learns from `init` (see [`init_info_of`]).
    pub fn from_init(li: LightningInit) -> (info: InitInfo)
        ensures
            info@ == init_info_of(li),
    {
        let socket_path = join_path(
            li.configuration.lightning_dir.as_str(),
            li.configuration.rpc_file.as_str(),
        );
        let auth_header = auth_header_for(li.options.http_user.as_str(), li.options.http_pass.as_str());
        InitInfo { socket_path, auth_header, http_port: li.options.http_port }
    }
}

impl From<LightningInit> for InitInfo {
    /// What the plugin learns from `init` (see [`init_info_of`]).
    fn from(li: LightningInit) -> (info: InitInfo)
        ensures
            info@ == init_info_of(li),
    {
        InitInfo::from_init(li)
    }
}

impl vstd::std_specs::convert::FromSpecImpl<LightningInit> for InitInfo {
    /// The conversion is stated over the view, by [`init_info_of`].
    open spec fn obeys_from_spec() -> bool {
        false
    }

    open spec fn from_spec(li: LightningInit) -> InitInfo {
        vstd::pervasive::arbitrary()
    }
}

/// `answer` answers request `id` with the error `code` and `message`, and the
/// text `data`.
pub open spec fn is_error_answer(
    answer: RpcRes,
    id: JsonRpcV2Id,
    code: i64,
    message: Seq<char>,
    data: Seq<char>,
) -> bool {
    &&& answer.id == id
    &&& answer.jsonrpc == JsonRpcV2
    &&& answer.result matches RpcResult::Error(e)
    &&& e.code == code
    &&& e.message@ == message
    &&& e.data matches Some(d)
    &&& is_json_text(d, data)
}

/// `answer` answers request `id` with a result that satisfies `holds`.
pub open spec fn is_result_answer(answer: RpcRes, id: JsonRpcV2Id, holds: spec_fn(JsonValue) -> bool) -> bool {
    &&& answer.id == id
    &&& answer.jsonrpc == JsonRpcV2
    &&& answer.result matches RpcResult::Result(v)
    &&& holds(v)
}

/// The argument that `init` reads its configuration from: the last of
/// positional parameters, or the named parameters as one object; none when
/// there are no positional parameters.
pub open spec fn init_argument_of(params: RpcParams) -> Option<JsonValue> {
    match params {
        RpcParams::ByPosition(values) => if values@.len() == 0 {
            None
        } else {
            Some(values@.last())
        },
        RpcParams::ByName(members) => Some(JsonValue::Object(members)),
    }
}

impl RpcParams {
    /// Parameters as JSON allows them: every value well-formed, and named
    /// parameters without a repeated name.
    pub open spec fn is_well_formed(self) -> bool {
        match self {
            RpcParams::ByPosition(values) => forall|i: int|
                0 <= i < values@.len() ==> (#[trigger] values@[i]).is_well_formed(),
            RpcParams::ByName(members) => JsonValue::Object(members).is_well_formed(),
        }
    }
}

/// The argument that `init` reads its configuration from is well-formed
/// when the parameters are.
pub proof fn lemma_init_argument_well_formed(params: RpcParams)
    requires
        params.is_well_formed(),
    ensures
        init_argument_of(params) matches Some(v) ==> v.is_well_formed(),
{
}

/// Named parameters are read as one object holding every member, in full
/// and in order, whatever their number; positional parameters give their
/// last value, and none are found only when the list is empty.
pub proof fn lemma_init_argument_keeps_all_named_members(params: RpcParams)
    ensures
        params matches RpcParams::ByName(members) ==> (init_argument_of(params) matches Some(
            JsonValue::Object(found),
        ) && found@.len() == members@.len() && forall|i: int|
            0 <= i < members@.len() ==> #[trigger] found@[i] == members@[i]),
        params matches RpcParams::ByPosition(values) ==> (init_argument_of(params) is None
            <==> values@.len() == 0) && (values@.len() > 0 ==> init_argument_of(params) == Some(
            values@[values@.len() - 1],
        )),
{
}

/// The message with which `init` without parameters is refused.
pub open spec fn no_arguments_message() -> Seq<char> {
    "no arguments supplied"@
}

/// The argument that `init` reads its configuration from (see
/// [`init_argument_of`]), or the message with which it is refused.
pub fn init_argument(params: RpcParams) -> (argument: Result<JsonValue, String>)
    ensures
        match argument {
            Ok(v) => init_argument_of(params) == Some(v),
            Err(message) => init_argument_of(params) is None && message@ == no_arguments_message(),
        },
{
    match params {
        RpcParams::ByPosition(values) => {
            let mut values = values;
            match values.pop() {
                Some(v) => Ok(v),
                None => Err("no arguments supplied".to_owned()),
            }
        },
        RpcParams::ByName(members) => Ok(JsonValue::Object(members)),
    }
}

/// The description of the `http-user` option.
pub open spec fn user_option_description() -> Seq<char> {
    "Basic-Auth user header for http authentication"@
}

/// The description of the `http-pass` option.
pub open spec fn pass_option_description() -> Seq<char> {
    "Basic-Auth password header for http authentication, not setting this will result in requests being rejected"@
}

/// The description of the `http-port` option.
pub open spec fn port_option_description() -> Seq<char> {
    "Http port for web server listening"@
}

/// `option` is the object that declares an option with this name, type,
/// default and description, in this order.
pub open spec fn declares_option(
    option: JsonValue,
    name: Seq<char>,
    kind: Seq<char>,
    default: spec_fn(JsonValue) -> bool,
    description: Seq<char>,
) -> bool {
    &&& option matches JsonValue::Object(members)
    &&& members@.len() == 4
    &&& has_key(members@[0], "name"@) && is_json_text(members@[0].1, name)
    &&& has_key(members@[1], "type"@) && is_json_text(members@[1].1, kind)
    &&& has_key(members@[2], "default"@) && default(members@[2].1)
    &&& has_key(members@[3], "description"@) && is_json_text(members@[3].1, description)
}

/// The feature bits that the plugin declares: none.
pub open spec fn no_feature_bits() -> Seq<char> {
    "00000000"@
}

/// `features` declares no feature bits for the node, `init` and invoices.
pub open spec fn declares_no_features(features: JsonValue) -> bool {
    &&& features matches JsonValue::Object(members)
    &&& members@.len() == 3
    &&& has_key(members@[0], "node"@) && is_json_text(members@[0].1, no_feature_bits())
    &&& has_key(members@[1], "init"@) && is_json_text(members@[1].1, no_feature_bits())
    &&& has_key(members@[2], "invoice"@) && is_json_text(members@[2].1, no_feature_bits())
}

/// `options` declares the plugin's three options, with their defaults.
pub open spec fn declares_plugin_options(options: JsonValue) -> bool {
    &&& options matches JsonValue::Array(items)
    &&& items@.len() == 3
    &&& declares_option(
        items@[0],
        "http-user"@,
        "string"@,
        |d: JsonValue| is_json_text(d, default_user_text()),
        user_option_description(),
    )
    &&& declares_option(
        items@[1],
        "http-pass"@,
        "string"@,
        |d: JsonValue| is_json_text(d, default_pass_text()),
        pass_option_description(),
    )
    &&& declares_option(
        items@[2],
        "http-port"@,
        "int"@,
        |d: JsonValue| is_json_number(d, "8080"@),
        port_option_description(),
    )
}

/// `manifest` is the plugin's answer to `getmanifest`: its options, no RPC
/// methods, subscriptions or hooks, no feature bits, and that it may be
/// started and stopped at runtime.
pub open spec fn is_plugin_manifest(manifest: JsonValue) -> bool {
    &&& manifest matches JsonValue::Object(members)
    &&& members@.len() == 6
    &&& has_key(members@[0], "options"@) && declares_plugin_options(members@[0].1)
    &&& has_key(members@[1], "rpcmethods"@) && is_empty_json_array(members@[1].1)
    &&& has_key(members@[2], "subscriptions"@) && is_empty_json_array(members@[2].1)
    &&& has_key(members@[3], "hooks"@) && is_empty_json_array(members@[3].1)
    &&& has_key(members@[4], "features"@) && declares_no_features(members@[4].1)
    &&& has_key(members@[5], "dynamic"@) && members@[5].1 == JsonValue::Bool(true)
}

fn plugin_option(name: &str, kind: &str, default: JsonValue, description: &str) -> (option: JsonValue)
    ensures
        option matches JsonValue::Object(members) && members@.len() == 4
            && has_key(members@[0], "name"@) && is_json_text(members@[0].1, name@)
            && has_key(members@[1], "type"@) && is_json_text(members@[1].1, kind@)
            && has_key(members@[2], "default"@) && members@[2].1 == default
            && has_key(members@[3], "description"@) && is_json_text(members@[3].1, description@),
{
    let mut members: Vec<(String, JsonValue)> = Vec::new();
    members.push(member("name", JsonValue::text(name)));
    members.push(member("type", JsonValue::text(kind)));
    members.push(member("default", default));
    members.push(member("description", JsonValue::text(description)));
    JsonValue::Object(members)
}

/// The manifest is a well-formed JSON value: no object in it repeats a key.
#[verifier::spinoff_prover]
pub proof fn lemma_plugin_manifest_well_formed(manifest: JsonValue)
    requires
        is_plugin_manifest(manifest),
    ensures
        manifest.is_well_formed(),
{
    reveal_strlit("options");
    reveal_strlit("rpcmethods");
    reveal_strlit("subscriptions");
    reveal_strlit("hooks");
    reveal_strlit("features");
    reveal_strlit("dynamic");
    reveal_strlit("name");
    reveal_strlit("type");
    reveal_strlit("default");
    reveal_strlit("description");
    reveal_strlit("node");
    reveal_strlit("init");
    reveal_strlit("invoice");
    let members = manifest->Object_0@;
    let options = members[0].1->Array_0@;
    assert forall|o: int| 0 <= o < options.len() implies (#[trigger] options[o]).is_well_formed() by {
        let m = options[o]->Object_0@;
        assert(m.len() == 4);
        assert(m[0].0@ == "name"@ && m[1].0@ == "type"@ && m[2].0@ == "default"@
            && m[3].0@ == "description"@);
        assert forall|i: int, j: int| 0 <= i < j < m.len() implies m[i].0@ != m[j].0@ by {
            if i == 0 && j == 1 {
                assert(m[i].0@[0] != m[j].0@[0]);
            } else {
                assert(m[i].0@.len() != m[j].0@.len());
            }
        }
        assert forall|i: int| 0 <= i < m.len() implies (#[trigger] m[i]).1.is_well_formed() by {
        }
    }
    assert(members[0].1.is_well_formed());
    let features = members[4].1->Object_0@;
    assert(features.len() == 3);
    assert(features[0].0@ == "node"@ && features[1].0@ == "init"@ && features[2].0@ == "invoice"@);
    assert forall|i: int, j: int| 0 <= i < j < features.len() implies features[i].0@ != features[j].0@ by {
        if i == 0 && j == 1 {
            assert(features[i].0@[0] != features[j].0@[0]);
        } else {
            assert(features[i].0@.len() != features[j].0@.len());
        }
    }
    assert forall|i: int| 0 <= i < features.len() implies (#[trigger] features[i]).1.is_well_formed() by {
    }
    assert(members[4].1.is_well_formed());
    assert forall|i: int, j: int| 0 <= i < j < members.len() implies members[i].0@ != members[j].0@ by {
        if i == 0 && j == 5 {
            assert(members[i].0@[0] != members[j].0@[0]);
        } else {
            assert(members[i].0@.len() != members[j].0@.len());
        }
    }
    assert forall|i: int| 0 <= i < members.len() implies (#[trigger] members[i]).1.is_well_formed() by {
    }
}

/// The plugin's answer to `getmanifest` (see [`is_plugin_manifest`]).
pub fn plugin_manifest() -> (manifest: JsonValue)
    ensures
        is_plugin_manifest(manifest),
        manifest.is_well_formed(),
{
    let mut options: Vec<JsonValue> = Vec::new();
    let user = default_user();
    options.push(
        plugin_option(
            "http-user",
            "string",
            JsonValue::String(user),
            "Basic-Auth user header for http authentication",
        ),
    );
    let pass = default_pass();
    options.push(
        plugin_option(
            "http-pass",
            "string",
            JsonValue::String(pass),
            "Basic-Auth password header for http authentication, not setting this will result in requests being rejected",
        ),
    );
    options.push(
        plugin_option(
            "http-port",
            "int",
            JsonValue::number("8080"),
            "Http port for web server listening",
        ),
    );
    let mut features: Vec<(String, JsonValue)> = Vec::new();
    features.push(member("node", JsonValue::text("00000000")));
    features.push(member("init", JsonValue::text("00000000")));
    features.push(member("invoice", JsonValue::text("00000000")));
    let mut members: Vec<(String, JsonValue)> = Vec::new();
    members.push(member("options", JsonValue::Array(options)));
    members.push(member("rpcmethods", JsonValue::empty_array()));
    members.push(member("subscriptions", JsonValue::empty_array()));
    members.push(member("hooks", JsonValue::empty_array()));
    members.push(member("features", JsonValue::Object(features)));
    members.push(member("dynamic", JsonValue::Bool(true)));
    let manifest = JsonValue::Object(members);
    proof {
        lemma_plugin_manifest_well_formed(manifest);
    }
    manifest
}

/// The manifest advertises the defaults that apply when an option is not
/// given: the default port is the number that it declares.
pub proof fn lemma_manifest_port_default_applies()
    ensures
        decimal_u16("8080"@) == Some(default_port_number()),
{
    reveal_strlit("8080");
    let t = "8080"@;
    assert(t =~= seq!['8', '0', '8', '0']);
    assert(t.drop_last() =~= seq!['8', '0', '8']);
    assert(t.drop_last().drop_last() =~= seq!['8', '0']);
    assert(t.drop_last().drop_last().drop_last() =~= seq!['8']);
    assert(t.drop_last().drop_last().drop_last().drop_last() =~= Seq::<char>::empty());
    assert(seq!['8'].drop_last() =~= Seq::<char>::empty());
    assert(seq!['8', '0'].drop_last() =~= seq!['8']);
    assert(seq!['8', '0', '8'].drop_last() =~= seq!['8', '0']);
    assert(digits_value(Seq::<char>::empty()) == 0);
    assert(digits_value(seq!['8']) == 8);
    assert(digits_value(seq!['8', '0']) == 80);
    assert(digits_value(seq!['8', '0', '8']) == 808);
    assert(digits_value(t) == 8080);
}

/// What is done with one message read from lightningd.
#[derive(Debug)]
pub enum ResponsePlan {
    /// A notification (a request without an id): it is not answered.
    Ignore,
    /// The request is answered with this.
    Respond(RpcRes),
    /// `init` with an id: its configuration is to be read from the argument,
    /// and the request answered by [`complete_init`].
    Initialize(JsonRpcV2Id, JsonValue),
}

/// The error code of a failed `init`.
pub const INIT_ERROR_CODE: i64 = 1;

/// The error code of a request for a method that the plugin does not have.
pub const UNKNOWN_METHOD_CODE: i64 = 2;

/// The error code of a message that could not be read as a request.
pub const PARSE_ERROR_CODE: i64 = 3;

fn error_answer(id: JsonRpcV2Id, code: i64, message: &'static str, data: String) -> (answer: RpcRes)
    ensures
        is_error_answer(answer, id, code, message@, data@),
{
    RpcRes {
        id,
        jsonrpc: JsonRpcV2,
        result: RpcResult::Error(RpcError { code, message, data: Some(JsonValue::String(data)) }),
    }
}

/// What is done with one message from lightningd: a message that could not
/// be read (the error's text given) is answered with a parse error under a
/// null id; a notification is ignored; `init` has its configuration read
/// from its argument, or is refused when it has none; `getmanifest` is
/// answered with the plugin's manifest; any other method is refused as
/// unknown, with its name as data.
pub fn handle_request(incoming: Result<RpcReq, String>) -> (plan: ResponsePlan)
    ensures
        match incoming {
            Err(message) => plan matches ResponsePlan::Respond(answer) && is_error_answer(
                answer,
                JsonRpcV2Id::Null,
                PARSE_ERROR_CODE,
                "parse error"@,
                message@,
            ),
            Ok(req) => match req.id {
                None => plan is Ignore,
                Some(id) => if req.method@ == "init"@ {
                    match init_argument_of(req.params) {
                        Some(argument) => plan == ResponsePlan::Initialize(id, argument),
                        None => plan matches ResponsePlan::Respond(answer) && is_error_answer(
                            answer,
                            id,
                            INIT_ERROR_CODE,
                            "error processing init"@,
                            no_arguments_message(),
                        ),
                    }
                } else if req.method@ == "getmanifest"@ {
                    plan matches ResponsePlan::Respond(answer) && is_result_answer(
                        answer,
                        id,
                        |v: JsonValue| is_plugin_manifest(v),
                    )
                } else {
                    plan matches ResponsePlan::Respond(answer) && is_error_answer(
                        answer,
                        id,
                        UNKNOWN_METHOD_CODE,
                        "unknown method"@,
                        req.method@,
                    )
                },
            },
        },
{
    match incoming {
        Err(message) => ResponsePlan::Respond(
            error_answer(JsonRpcV2Id::Null, PARSE_ERROR_CODE, "parse error", message),
        ),
        Ok(req) => {
            let RpcReq { id, jsonrpc: _, method, params } = req;
            match id {
                None => ResponsePlan::Ignore,
                Some(id) => {
                    if method == "init".to_owned() {
                        match init_argument(params) {
                            Ok(argument) => ResponsePlan::Initialize(id, argument),
                            Err(message) => ResponsePlan::Respond(
                                error_answer(id, INIT_ERROR_CODE, "error processing init", message),
                            ),
                        }
                    } else if method == "getmanifest".to_owned() {
                        ResponsePlan::Respond(
                            RpcRes {
                                id,
                                jsonrpc: JsonRpcV2,
                                result: RpcResult::Result(plugin_manifest()),
                            },
                        )
                    } else {
                        ResponsePlan::Respond(
                            error_answer(id, UNKNOWN_METHOD_CODE, "unknown method", method),
                        )
                    }
                },
            }
        },
    }
}

/// Answers `init` once its argument has been read as the configuration (or
/// failed to be, with the error's text): on success the answer is an empty
/// object and the [`InitInfo`] derived from the configuration is to be handed
/// to the HTTP server; on failure the request is refused with the error's
/// text and nothing is handed on.
pub fn complete_init(id: JsonRpcV2Id, parsed: Result<LightningInit, String>) -> (outcome: (
    RpcRes,
    Option<InitInfo>,
))
    ensures
        match parsed {
            Ok(li) => {
                &&& is_result_answer(outcome.0, id, |v: JsonValue| is_empty_json_object(v))
                &&& outcome.1 matches Some(info)
                &&& info@ == init_info_of(li)
            },
            Err(message) => {
                &&& is_error_answer(outcome.0, id, INIT_ERROR_CODE, "error processing init"@, message@)
                &&& outcome.1 is None
            },
        },
{
    match parsed {
        Ok(li) => {
            let info = InitInfo::from(li);
            (RpcRes { id, jsonrpc: JsonRpcV2, result: RpcResult::Result(JsonValue::empty_object()) }, Some(info))
        },
        Err(message) => (error_answer(id, INIT_ERROR_CODE, "error processing init", message), None),
    }
}

} // verus!
