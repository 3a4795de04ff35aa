//! Requests that the connector answers by itself.
use motherduck_connector::abi::{
    accept, buffer_to_string, connection_id, error, max_rows, ok, owned_buffer, parse_request,
    profile_field, request_method, string_field, IrodoriConnectorBuffer,
};
use motherduck_connector::connect::{connect, should_seed_sample, state_poisoned, Target};
use motherduck_connector::documents::{CONFIG_JSON, MANIFEST_JSON};
use motherduck_connector::driver::{call_json, describe, dispatch, Call};
use motherduck_connector::json::{Fields, Json};
use motherduck_connector::{
    irodori_connector_call_json, irodori_connector_config_json, irodori_connector_engine_json,
    irodori_extension_abi_version, irodori_extension_manifest_json, ENGINE,
};
use serde_json::Value;

fn buffer_from_bytes(value: &[u8]) -> IrodoriConnectorBuffer {
    IrodoriConnectorBuffer {
        ptr: Some(value.to_vec()),
        len: value.len(),
    }
}

fn buffer_from_str(value: &str) -> IrodoriConnectorBuffer {
    buffer_from_bytes(value.as_bytes())
}

fn text_of(buffer: IrodoriConnectorBuffer) -> String {
    let memory = buffer.ptr.unwrap();
    String::from_utf8(memory[..buffer.len].to_vec()).unwrap()
}

fn buffer_to_json(buffer: IrodoriConnectorBuffer) -> Value {
    serde_json::from_str(&text_of(buffer)).unwrap()
}

fn reply_of(call: Call) -> IrodoriConnectorBuffer {
    match call {
        Call::Reply(reply) => reply,
        _ => panic!("expected a reply"),
    }
}

fn call(request: &str) -> Value {
    buffer_to_json(reply_of(irodori_connector_call_json(buffer_from_str(
        request,
    ))))
}

fn json(text: &str) -> Json {
    Json::parse(text).unwrap()
}

#[test]
fn manifest_and_config_describe_the_same_connector() {
    let manifest: Value = serde_json::from_str(MANIFEST_JSON).unwrap();
    let config: Value = serde_json::from_str(CONFIG_JSON).unwrap();
    let connector = &manifest["contributes"]["connectors"][0];

    assert_eq!(manifest["id"], config["extensionId"]);
    assert_eq!(connector["engine"], ENGINE);
    assert_eq!(connector["engine"], config["connector"]["engine"]);
    assert_eq!(connector["module"], config["connector"]["module"]);
    assert_eq!(connector["connection"], config["connection"]);
    assert!(config["connection"]["authMethods"]
        .as_array()
        .is_some_and(|methods| !methods.is_empty()));
    assert!(config["connection"]["secretPurposes"]
        .as_array()
        .is_some_and(|purposes| !purposes.is_empty()));
    assert_eq!(config["runtime"]["driverLinked"], true);
    assert!(manifest["permissions"]
        .as_array()
        .unwrap()
        .iter()
        .any(|permission| permission == "connectors"));
}

#[test]
fn call_json_reports_health_and_describes_metadata() {
    let health = call(r#"{"method":"health"}"#);
    assert_eq!(health["ok"], true);
    assert_eq!(health["engine"], ENGINE);
    assert_eq!(health["driverLinked"], true);

    let describe = call(r#"{"method":"describe"}"#);
    assert_eq!(describe["ok"], true);
    assert_eq!(
        describe["manifest"]["id"],
        describe["config"]["extensionId"]
    );
    assert_eq!(describe["config"]["connector"]["engine"], ENGINE);
}

#[test]
fn call_json_rejects_invalid_request_buffers() {
    let invalid_utf8 = buffer_to_json(reply_of(irodori_connector_call_json(buffer_from_bytes(&[
        0xff, 0xfe,
    ]))));
    assert_eq!(invalid_utf8["ok"], false);
    assert_eq!(invalid_utf8["error"]["code"], "connector.invalidRequest");

    let invalid_json = call("{");
    assert_eq!(invalid_json["ok"], false);
    assert_eq!(invalid_json["error"]["code"], "connector.invalidJson");

    let invalid_null = buffer_to_json(reply_of(irodori_connector_call_json(
        IrodoriConnectorBuffer { ptr: None, len: 1 },
    )));
    assert_eq!(invalid_null["ok"], false);
    assert_eq!(invalid_null["error"]["code"], "connector.invalidRequest");
}

#[test]
fn entry_points_hand_out_what_describes_the_connector() {
    assert_eq!(irodori_extension_abi_version(), 1);
    assert_eq!(text_of(irodori_connector_engine_json()), "motherduck");
    assert_eq!(text_of(irodori_extension_manifest_json()), MANIFEST_JSON);
    assert_eq!(text_of(irodori_connector_config_json()), CONFIG_JSON);
    assert_eq!(
        text_of(reply_of(call_json(buffer_from_str(r#"{"method":"manifest"}"#)))),
        MANIFEST_JSON
    );
    assert_eq!(
        text_of(reply_of(call_json(buffer_from_str(r#"{"method":"config"}"#)))),
        CONFIG_JSON
    );
}

#[test]
fn health_is_one_exact_text() {
    let text = r#"{"abiVersion":1,"driverLinked":true,"engine":"motherduck","ok":true}"#;
    assert_eq!(
        text_of(reply_of(call_json(buffer_from_str(r#" {"method":"ping"} "#)))),
        text
    );
    assert_eq!(text_of(reply_of(call_json(buffer_from_str(" \n\t")))), text);
    assert_eq!(
        text_of(reply_of(call_json(IrodoriConnectorBuffer {
            ptr: None,
            len: 0
        }))),
        text
    );
    assert_eq!(text_of(reply_of(dispatch(None))), text);
}

#[test]
fn white_space_around_a_request_does_not_matter() {
    assert_eq!(
        call("\u{3000}\u{a0} {\"method\":\"nope\"}\u{2028}"),
        call("{\"method\":\"nope\"}")
    );
}

#[test]
fn invalid_requests_say_what_is_wrong() {
    let reply = call("{");
    assert_eq!(
        reply["error"]["message"],
        "Connector request must be valid JSON: EOF while parsing an object at line 1 column 1"
    );
    let reply = buffer_to_json(accept(Err("no".to_string())).unwrap_err());
    assert_eq!(
        reply["error"]["message"],
        "Connector request must be valid JSON: no"
    );
    assert!(matches!(accept(Ok(Json::Bool(true))), Ok(Json::Bool(true))));
    let reply = call(r#"{"method":"  "}"#);
    assert_eq!(reply["error"]["code"], "connector.invalidRequest");
    assert_eq!(
        reply["error"]["message"],
        "Connector request needs a string method."
    );
    assert_eq!(call("[1]")["error"]["code"], "connector.invalidRequest");
    let reply = call(r#"{"method":" health "}"#);
    assert_eq!(reply["error"]["code"], "connector.unknownMethod");
    assert_eq!(
        reply["error"]["message"],
        "unknown connector method:  health "
    );
    let reply = call(r#"{"method":"query","sql":" "}"#);
    assert_eq!(reply["error"]["code"], "connector.invalidRequest");
    assert_eq!(
        reply["error"]["message"],
        "query requires a string sql field."
    );
    let reply = buffer_to_json(state_poisoned());
    assert_eq!(reply["error"]["code"], "connector.statePoisoned");
    assert_eq!(
        reply["error"]["message"],
        "Connector connection state is poisoned."
    );
}

#[test]
fn parse_request_reads_up_to_the_length() {
    let buffer = IrodoriConnectorBuffer {
        ptr: Some(b"{\"a\":1}garbage".to_vec()),
        len: 7,
    };
    let request = parse_request(&buffer).unwrap().unwrap();
    assert_eq!(request.get("a").unwrap().as_u64(), Some(1));
    assert!(parse_request(&buffer_from_str("")).unwrap().is_none());
    assert!(buffer_to_string(&buffer_from_bytes(&[0xc3])).is_err());
    assert_eq!(
        buffer_to_string(&buffer_from_bytes(&[0xc3, 0xa9])).unwrap(),
        "é"
    );
    assert_eq!(
        owned_buffer("hé".to_string()).ptr.unwrap(),
        vec![0x68, 0xc3, 0xa9]
    );
}

#[test]
fn replies_say_whether_they_are_ok() {
    let payload = Fields::new()
        .with("ok", Json::Str("shadowed".to_string()))
        .with("n", Json::Signed(-3));
    assert_eq!(text_of(ok(payload)), r#"{"n":-3,"ok":true}"#);
    assert_eq!(
        text_of(error("a.b", "say \"no\"".to_string())),
        r#"{"error":{"code":"a.b","message":"say \"no\""},"ok":false}"#
    );
    let reply = ok(Fields::new());
    assert_eq!(reply.ptr.unwrap().len(), reply.len);
    assert_eq!(reply.len, r#"{"ok":true}"#.len());
}

#[test]
fn describe_puts_documents_beside_the_health() {
    let reply = buffer_to_json(describe(Json::Null, json(r#"{"a":[1,2.5]}"#)));
    assert_eq!(reply["manifest"], Value::Null);
    assert_eq!(reply["config"]["a"][1], 2.5);
    assert_eq!(reply["abiVersion"], 1);
    assert_eq!(
        call(r#"{"method":"capabilities"}"#),
        call(r#"{"method":"describe"}"#)
    );
}

#[test]
fn fields_are_found_where_they_are() {
    let request = json(
        r#"{"a":"x","b":" ","c":3,"profile":{"a":"y","b":"z","c":"w"},"method":"m"}"#,
    );
    assert_eq!(string_field(&request, "a"), Some("x"));
    assert_eq!(string_field(&request, "b"), None);
    assert_eq!(string_field(&request, "c"), None);
    assert_eq!(string_field(&request, "none"), None);
    assert_eq!(profile_field(&request, "a"), Some("x"));
    assert_eq!(profile_field(&request, "b"), Some("z"));
    assert_eq!(profile_field(&request, "c"), Some("w"));
    assert_eq!(profile_field(&request, "none"), None);
    assert_eq!(request_method(Some(&request)).unwrap(), "m");
    assert_eq!(request_method(None).unwrap(), "health");
    let twice = json(r#"{"a":"first","a":"second"}"#);
    assert_eq!(string_field(&twice, "a"), Some("second"));
}

#[test]
fn connection_ids_are_named_in_order() {
    assert_eq!(connection_id(None), "default");
    assert_eq!(connection_id(Some(&json("{}"))), "default");
    assert_eq!(
        connection_id(Some(&json(r#"{"profile":{"id":" p "}}"#))),
        "p"
    );
    assert_eq!(
        connection_id(Some(&json(r#"{"id":"i","profile":{"id":"p"}}"#))),
        "i"
    );
    assert_eq!(
        connection_id(Some(&json(
            r#"{"connectionId":"\tc ","id":"i","profile":{"id":"p"}}"#
        ))),
        "c"
    );
    assert_eq!(
        connection_id(Some(&json(r#"{"connectionId":" ","id":"i"}"#))),
        "i"
    );
}

#[test]
fn max_rows_is_clamped() {
    assert_eq!(max_rows(&json("{}")), 10_000);
    assert_eq!(max_rows(&json(r#"{"maxRows":10}"#)), 10);
    assert_eq!(max_rows(&json(r#"{"limit":7}"#)), 7);
    assert_eq!(max_rows(&json(r#"{"maxRows":5,"limit":7}"#)), 5);
    assert_eq!(max_rows(&json(r#"{"maxRows":null,"limit":7}"#)), 10_000);
    assert_eq!(max_rows(&json(r#"{"maxRows":0}"#)), 1);
    assert_eq!(max_rows(&json(r#"{"maxRows":-1}"#)), 10_000);
    assert_eq!(max_rows(&json(r#"{"maxRows":2.0}"#)), 10_000);
    assert_eq!(max_rows(&json(r#"{"maxRows":100001}"#)), 100_000);
    assert_eq!(max_rows(&json(r#"{"maxRows":18446744073709551615}"#)), 100_000);
    assert_eq!(max_rows(&json(r#"{"maxRows":18446744073709551616}"#)), 10_000);
}

#[test]
fn connect_chooses_what_to_open() {
    let target = |text: &str| match connect(&json(text)).target {
        Target::InMemory => "memory".to_string(),
        Target::Path(path) => path,
    };
    assert_eq!(target("{}"), "memory");
    assert_eq!(target(r#"{"database":" :memory: "}"#), "memory");
    assert_eq!(target(r#"{"database":" "}"#), "memory");
    assert_eq!(target(r#"{"database":" a.db "}"#), "a.db");
    assert_eq!(target(r#"{"url":"md:x"}"#), "md:x");
    assert_eq!(target(r#"{"url":"u","profile":{"database":"d"}}"#), "d");
    assert_eq!(target(r#"{"profile":{"url":"u"}}"#), "u");
    assert_eq!(connect(&json("{}")).version_sql, "select version()");
}

#[test]
fn sample_data_goes_where_it_is_wanted() {
    assert!(should_seed_sample(&json("{}"), "duckdb-memory"));
    assert!(should_seed_sample(&json("{}"), "motherduck-memory"));
    assert!(!should_seed_sample(&json("{}"), "other"));
    assert!(should_seed_sample(&json(r#"{"seedSample":true}"#), "other"));
    assert!(!should_seed_sample(
        &json(r#"{"seedSample":false,"profile":{"seedSample":true}}"#),
        "duckdb-memory"
    ));
    assert!(should_seed_sample(
        &json(r#"{"profile":{"seedSample":true}}"#),
        "other"
    ));
    assert!(!should_seed_sample(
        &json(r#"{"seedSample":"yes","profile":{"seedSample":true}}"#),
        "other"
    ));
}
