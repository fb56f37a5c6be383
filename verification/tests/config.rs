use mcplink::config::{parse_universal_config, validate_config, ConfigError, ServerConfig, Transport, UniversalConfig};
use mcplink::json::JsonValue;

fn to_json(v: serde_json::Value) -> JsonValue {
    match v {
        serde_json::Value::Null => JsonValue::Null,
        serde_json::Value::Bool(b) => JsonValue::Bool(b),
        serde_json::Value::Number(n) => JsonValue::Number(n.to_string()),
        serde_json::Value::String(s) => JsonValue::String(s),
        serde_json::Value::Array(a) => JsonValue::Array(a.into_iter().map(to_json).collect()),
        serde_json::Value::Object(m) => {
            JsonValue::Object(m.into_iter().map(|(k, v)| (k, to_json(v))).collect())
        }
    }
}

fn read(text: &str) -> Result<UniversalConfig, ConfigError> {
    parse_universal_config(&to_json(serde_json::from_str(text).unwrap()))
}

#[test]
fn test_parse_valid_http_server() {
    let json = r#"{"servers":{"foo":{"transport":"http","url":"http://localhost:3000"}}}"#;
    let config = read(json).unwrap();
    assert_eq!(config.servers().len(), 1);
    let s = config.get("foo").unwrap();
    assert!(matches!(s.transport, Transport::Http));
    assert_eq!(s.url.as_deref(), Some("http://localhost:3000"));
}

#[test]
fn test_parse_valid_stdio_server() {
    let json = r#"{"servers":{"bar":{"transport":"stdio","command":"npx","args":["-y","@mcp/server"]}}}"#;
    let config = read(json).unwrap();
    let s = config.get("bar").unwrap();
    assert!(matches!(s.transport, Transport::Stdio));
    assert_eq!(s.command.as_deref(), Some("npx"));
}

#[test]
fn test_validate_http_missing_url() {
    let json = r#"{"servers":{"bad":{"transport":"http"}}}"#;
    let result = read(json);
    assert!(result.is_err());
    assert!(result.unwrap_err().message().contains("requires 'url'"));
}

#[test]
fn test_validate_stdio_missing_command() {
    let json = r#"{"servers":{"bad":{"transport":"stdio"}}}"#;
    let result = read(json);
    assert!(result.is_err());
    assert!(result.unwrap_err().message().contains("requires 'command'"));
}

#[test]
fn missing_url_message_names_the_server() {
    let err = read(r#"{"servers":{"bad":{"transport":"http"}}}"#).unwrap_err();
    assert!(matches!(&err, ConfigError::MissingUrl(n) if n == "bad"));
    assert_eq!(err.message(), "Server 'bad': http transport requires 'url'");
}

#[test]
fn missing_command_message_names_the_server() {
    let err = read(r#"{"servers":{"x":{"transport":"stdio","args":[]}}}"#).unwrap_err();
    assert!(matches!(&err, ConfigError::MissingCommand(n) if n == "x"));
    assert_eq!(err.message(), "Server 'x': stdio transport requires 'command'");
}

#[test]
fn full_servers_are_read_field_by_field() {
    let json = r#"{"servers":{
        "memlink":{"transport":"http","url":"https://memlink.cloud/mcp","headers":{"Authorization":"Bearer TOKEN"}},
        "filesystem":{"transport":"stdio","command":"npx","args":["-y","@modelcontextprotocol/server-filesystem","/home/user"],"env":{"A":"1"}}
    },"other":42}"#;
    let config = read(json).unwrap();
    assert_eq!(config.len(), 2);
    let m = config.get("memlink").unwrap();
    assert_eq!(m.transport, Transport::Http);
    assert_eq!(m.url.as_deref(), Some("https://memlink.cloud/mcp"));
    assert_eq!(m.headers, Some(vec![("Authorization".to_string(), "Bearer TOKEN".to_string())]));
    assert_eq!(m.command, None);
    let f = config.get("filesystem").unwrap();
    assert_eq!(f.transport, Transport::Stdio);
    assert_eq!(f.command.as_deref(), Some("npx"));
    assert_eq!(
        f.args,
        Some(vec![
            "-y".to_string(),
            "@modelcontextprotocol/server-filesystem".to_string(),
            "/home/user".to_string()
        ])
    );
    assert_eq!(f.env, Some(vec![("A".to_string(), "1".to_string())]));
    assert!(config.get("nope").is_none());
}

#[test]
fn null_optional_fields_are_absent() {
    let config = read(r#"{"servers":{"a":{"transport":"http","url":"u","headers":null,"command":null}}}"#).unwrap();
    let a = config.get("a").unwrap();
    assert_eq!(a.headers, None);
    assert_eq!(a.command, None);
}

#[test]
fn wrong_shapes_are_refused() {
    for text in [
        r#"[]"#,
        r#"42"#,
        r#"{}"#,
        r#"{"servers":[]}"#,
        r#"{"servers":{"a":{"url":"u"}}}"#,
        r#"{"servers":{"a":{"transport":"sse","url":"u"}}}"#,
        r#"{"servers":{"a":{"transport":"http","url":5}}}"#,
        r#"{"servers":{"a":{"transport":"stdio","command":"c","args":"x"}}}"#,
        r#"{"servers":{"a":{"transport":"stdio","command":"c","args":[1]}}}"#,
        r#"{"servers":{"a":{"transport":"stdio","command":"c","env":{"K":1}}}}"#,
        r#"{"servers":{"a":{"transport":{"http":1},"url":"u"}}}"#,
        r#"{"servers":{"a":{"transport":{"http":null,"stdio":null},"url":"u"}}}"#,
        r#"{"servers":{"a":"http"}}"#,
        r#"{"servers":{"a":["http","u",null,null,null]}}"#,
    ] {
        let r = read(text);
        assert!(matches!(r, Err(ConfigError::Malformed)), "{}", text);
    }
}

#[test]
fn variant_object_and_array_forms_are_read() {
    let config = read(r#"[{"a":["stdio",null,null,"cmd",["x"],null],"b":{"transport":{"http":null},"url":"u"}}]"#).unwrap();
    let a = config.get("a").unwrap();
    assert_eq!(a.transport, Transport::Stdio);
    assert_eq!(a.command.as_deref(), Some("cmd"));
    assert_eq!(a.args, Some(vec!["x".to_string()]));
    let b = config.get("b").unwrap();
    assert_eq!(b.transport, Transport::Http);
    assert_eq!(b.url.as_deref(), Some("u"));
}

#[test]
fn repeated_names_keep_the_last_value_in_the_first_place() {
    let d = JsonValue::Object(vec![(
        "servers".to_string(),
        JsonValue::Object(vec![
            ("a".to_string(), JsonValue::Object(vec![
                ("transport".to_string(), JsonValue::String("http".to_string())),
                ("url".to_string(), JsonValue::String("one".to_string())),
            ])),
            ("b".to_string(), JsonValue::Object(vec![
                ("transport".to_string(), JsonValue::String("stdio".to_string())),
                ("command".to_string(), JsonValue::String("c".to_string())),
            ])),
            ("a".to_string(), JsonValue::Object(vec![
                ("transport".to_string(), JsonValue::String("http".to_string())),
                ("url".to_string(), JsonValue::String("two".to_string())),
            ])),
        ]),
    )]);
    let config = parse_universal_config(&d).unwrap();
    assert_eq!(config.servers().len(), 2);
    assert_eq!(config.servers()[0].0, "a");
    assert_eq!(config.servers()[0].1.url.as_deref(), Some("two"));
    assert_eq!(config.servers()[1].0, "b");
}

#[test]
fn the_first_incomplete_server_is_reported() {
    let config = UniversalConfig::new(vec![
            ("ok".to_string(), ServerConfig {
                transport: Transport::Http,
                url: Some("u".to_string()),
                headers: None,
                command: None,
                args: None,
                env: None,
            }),
            ("s".to_string(), ServerConfig {
                transport: Transport::Stdio,
                url: Some("u".to_string()),
                headers: None,
                command: None,
                args: None,
                env: None,
            }),
            ("h".to_string(), ServerConfig {
                transport: Transport::Http,
                url: None,
                headers: None,
                command: None,
                args: None,
                env: None,
            }),
        ]);
    let err = validate_config(&config).unwrap_err();
    assert!(matches!(&err, ConfigError::MissingCommand(n) if n == "s"));
    let empty = UniversalConfig::new(vec![]);
    assert!(validate_config(&empty).is_ok());
}

#[test]
fn an_empty_server_table_is_a_configuration() {
    let config = read(r#"{"servers": {}}"#).unwrap();
    assert_eq!(config.len(), 0);
}

fn text_value(t: &str) -> JsonValue {
    JsonValue::String(t.to_string())
}

fn table(servers: Vec<(&str, JsonValue)>) -> JsonValue {
    JsonValue::Object(vec![(
        "servers".to_string(),
        JsonValue::Object(servers.into_iter().map(|(k, v)| (k.to_string(), v)).collect()),
    )])
}

#[test]
fn a_field_given_twice_is_refused() {
    let twice = JsonValue::Object(vec![
        ("transport".to_string(), text_value("http")),
        ("url".to_string(), text_value("one")),
        ("url".to_string(), text_value("two")),
    ]);
    assert!(matches!(parse_universal_config(&table(vec![("a", twice)])), Err(ConfigError::Malformed)));
    let other_twice = JsonValue::Object(vec![
        ("transport".to_string(), text_value("http")),
        ("url".to_string(), text_value("one")),
        ("note".to_string(), text_value("x")),
        ("note".to_string(), text_value("y")),
    ]);
    let config = parse_universal_config(&table(vec![("a", other_twice)])).unwrap();
    assert_eq!(config.get("a").unwrap().url.as_deref(), Some("one"));
    let servers_twice = JsonValue::Object(vec![
        ("servers".to_string(), JsonValue::Object(vec![])),
        ("servers".to_string(), JsonValue::Object(vec![])),
    ]);
    assert!(matches!(parse_universal_config(&servers_twice), Err(ConfigError::Malformed)));
}

fn http(url: &str, headers: Option<Vec<(&str, &str)>>) -> ServerConfig {
    ServerConfig {
        transport: Transport::Http,
        url: Some(url.to_string()),
        headers: headers.map(|h| h.into_iter().map(|(k, v)| (k.to_string(), v.to_string())).collect()),
        command: None,
        args: None,
        env: None,
    }
}

#[test]
fn a_configuration_names_each_server_once() {
    let config = UniversalConfig::new(vec![
        ("a".to_string(), http("one", Some(vec![("K", "1"), ("L", "2"), ("K", "3")]))),
        ("b".to_string(), http("b", None)),
        ("a".to_string(), http("two", Some(vec![("K", "1"), ("K", "4")]))),
    ]);
    let servers = config.servers();
    assert_eq!(servers.len(), 2);
    assert_eq!(servers[0].0, "a");
    assert_eq!(servers[0].1.url.as_deref(), Some("two"));
    assert_eq!(servers[0].1.headers, Some(vec![("K".to_string(), "4".to_string())]));
    assert_eq!(servers[1].0, "b");
    assert_eq!(config.len(), 2);
    let only = UniversalConfig::new(vec![("x".to_string(), http("u", Some(vec![("K", "1"), ("L", "2"), ("K", "3")])))]);
    assert_eq!(
        only.get("x").unwrap().headers,
        Some(vec![("K".to_string(), "3".to_string()), ("L".to_string(), "2".to_string())])
    );
}
