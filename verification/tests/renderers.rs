use mcplink::config::{ServerConfig, Transport, UniversalConfig};
use mcplink::detect::{all_renderers, AnyRenderer};
use mcplink::json::{json_clone, parse_json_text, pretty_json_text, JsonValue};
use mcplink::renderers::copilot::CopilotRenderer;
use mcplink::renderers::opencode::{merge_rendered, OpenCodeRenderer};
use mcplink::renderers::{render_opencode_server, transform_server, AgentRenderer};

fn s(x: &str) -> JsonValue {
    JsonValue::String(x.to_string())
}

fn obj(members: Vec<(&str, JsonValue)>) -> JsonValue {
    JsonValue::Object(members.into_iter().map(|(k, v)| (k.to_string(), v)).collect())
}

fn arr(items: Vec<JsonValue>) -> JsonValue {
    JsonValue::Array(items)
}

fn http_server() -> ServerConfig {
    ServerConfig {
        transport: Transport::Http,
        url: Some("http://localhost:3000".into()),
        headers: None,
        command: None,
        args: None,
        env: None,
    }
}

fn stdio_server() -> ServerConfig {
    ServerConfig {
        transport: Transport::Stdio,
        url: None,
        headers: None,
        command: Some("npx".into()),
        args: Some(vec!["-y".into(), "@mcp/server".into()]),
        env: Some(vec![("KEY".into(), "val".into())]),
    }
}

fn config() -> UniversalConfig {
    UniversalConfig::new(vec![("web".to_string(), http_server()), ("local".to_string(), stdio_server())])
}

#[test]
fn test_transform_http() {
    let v = transform_server(&http_server());
    let obj = v.as_object().unwrap();
    assert_eq!(v.get("type"), Some(&s("http")));
    assert_eq!(v.get("url"), Some(&s("http://localhost:3000")));
    assert_eq!(obj.len(), 2);
}

#[test]
fn test_transform_stdio() {
    let v = transform_server(&stdio_server());
    assert!(v.as_object().is_some());
    assert_eq!(v.get("command"), Some(&s("npx")));
    assert_eq!(v.get("args"), Some(&arr(vec![s("-y"), s("@mcp/server")])));
    assert_eq!(v.get("env"), Some(&obj(vec![("KEY", s("val"))])));
}

#[test]
fn test_transform_stdio_no_env() {
    let srv = ServerConfig { env: None, ..stdio_server() };
    let v = transform_server(&srv);
    assert!(v.as_object().is_some());
    assert_eq!(v.get("command"), Some(&s("npx")));
    assert!(v.get("env").is_none());
}

#[test]
fn http_headers_become_an_object() {
    let srv = ServerConfig {
        headers: Some(vec![("Authorization".into(), "Bearer TOKEN".into())]),
        ..http_server()
    };
    assert_eq!(
        transform_server(&srv),
        obj(vec![
            ("type", s("http")),
            ("url", s("http://localhost:3000")),
            ("headers", obj(vec![("Authorization", s("Bearer TOKEN"))])),
        ])
    );
}

#[test]
fn opencode_entries() {
    assert_eq!(
        render_opencode_server(&http_server()),
        obj(vec![("type", s("remote")), ("enabled", JsonValue::Bool(true)), ("url", s("http://localhost:3000"))])
    );
    assert_eq!(
        render_opencode_server(&stdio_server()),
        obj(vec![
            ("type", s("local")),
            ("enabled", JsonValue::Bool(true)),
            ("command", arr(vec![s("npx"), s("-y"), s("@mcp/server")])),
            ("environment", obj(vec![("KEY", s("val"))])),
        ])
    );
    let bare = ServerConfig { command: None, args: None, env: None, ..stdio_server() };
    assert_eq!(
        render_opencode_server(&bare),
        obj(vec![("type", s("local")), ("enabled", JsonValue::Bool(true)), ("command", arr(vec![]))])
    );
}

#[test]
fn copilot_document_lists_every_server() {
    let doc = CopilotRenderer.render(&config());
    assert_eq!(
        doc,
        obj(vec![(
            "mcpServers",
            obj(vec![
                ("web", transform_server(&http_server())),
                ("local", transform_server(&stdio_server())),
            ])
        )])
    );
}

#[test]
fn every_agent_has_its_file_and_key() {
    let expected = [
        ("cursor", "/p/.cursor/mcp.json", "mcpServers"),
        ("code-cli", "/p/.mcp.json", "mcpServers"),
        ("copilot", "/p/.github/mcp.json", "mcpServers"),
        ("vscode", "/p/.vscode/mcp.json", "servers"),
        ("windsurf", "/p/.windsurf/mcp.json", "mcpServers"),
        ("opencode", "/p/opencode.json", "mcp"),
    ];
    let all = all_renderers();
    assert_eq!(all.len(), expected.len());
    for (r, (name, path, key)) in all.iter().zip(expected.iter()) {
        assert_eq!(r.name(), *name);
        assert_eq!(r.config_path("/p"), *path);
        let doc = r.render(&config());
        let members = doc.as_object().unwrap();
        assert_eq!(members.len(), 1);
        assert_eq!(members[0].0, *key);
        let servers = members[0].1.as_object().unwrap();
        let names: Vec<&str> = servers.iter().map(|(n, _)| n.as_str()).collect();
        assert_eq!(names, vec!["web", "local"]);
    }
}

#[test]
fn only_opencode_keeps_the_old_file() {
    for r in all_renderers() {
        let keeps = matches!(r, AnyRenderer::OpenCode(_));
        assert_eq!(r.keeps_existing(), keeps);
        let old = obj(vec![("theme", s("dark"))]);
        let doc = r.document(&config(), Some(old));
        if keeps {
            assert_eq!(doc.get("theme"), Some(&s("dark")));
        } else {
            assert_eq!(doc, r.render(&config()));
        }
    }
}

#[test]
fn opencode_merge_keeps_other_settings() {
    let old = obj(vec![("theme", s("dark")), ("mcp", s("stale")), ("model", s("m"))]);
    let doc = OpenCodeRenderer.document(&config(), Some(old));
    let rendered = OpenCodeRenderer.render(&config());
    assert_eq!(
        doc,
        obj(vec![
            ("theme", s("dark")),
            ("mcp", json_clone(rendered.get("mcp").unwrap())),
            ("model", s("m")),
        ])
    );
}

#[test]
fn opencode_without_old_file_is_the_rendered_document() {
    let doc = OpenCodeRenderer.document(&config(), None);
    assert_eq!(doc, OpenCodeRenderer.render(&config()));
}

#[test]
fn opencode_write_twice_is_write_once() {
    let once = OpenCodeRenderer.document(&config(), Some(obj(vec![("a", s("b"))])));
    let twice = OpenCodeRenderer.document(&config(), Some(json_clone(&once)));
    assert_eq!(once, twice);
}

#[test]
fn merge_into_a_non_object_gives_an_object() {
    let rendered = OpenCodeRenderer.render(&config());
    let mcp = rendered.get("mcp").unwrap();
    assert_eq!(merge_rendered(arr(vec![s("x")]), &rendered), obj(vec![("mcp", json_clone(mcp))]));
    assert_eq!(merge_rendered(JsonValue::Null, &rendered), obj(vec![("mcp", json_clone(mcp))]));
    let no_mcp = obj(vec![("other", JsonValue::Null)]);
    assert_eq!(merge_rendered(obj(vec![("k", s("v"))]), &no_mcp), obj(vec![("k", s("v"))]));
    assert_eq!(merge_rendered(arr(vec![]), &no_mcp), obj(vec![]));
}

#[test]
fn opencode_over_json_that_is_not_an_object_is_the_rendered_document() {
    for old in [arr(vec![JsonValue::Number("1".to_string())]), JsonValue::Null, s("x")] {
        let doc = OpenCodeRenderer.document(&config(), Some(old));
        assert_eq!(doc, OpenCodeRenderer.render(&config()));
        assert!(doc.get("mcp").is_some());
    }
}

/// The same document with every object's members sorted by name, as a
/// written file shows them.
fn sorted(v: &JsonValue) -> JsonValue {
    match v {
        JsonValue::Object(m) => {
            let mut out: Vec<(String, JsonValue)> = m.iter().map(|(k, v)| (k.clone(), sorted(v))).collect();
            out.sort_by(|a, b| a.0.cmp(&b.0));
            JsonValue::Object(out)
        }
        JsonValue::Array(a) => JsonValue::Array(a.iter().map(sorted).collect()),
        other => json_clone(other),
    }
}

#[test]
fn json_text_is_read_member_by_member() {
    let v = parse_json_text(r#"{"b": 1, "a": [true, null, "s"]}"#).unwrap();
    assert_eq!(
        v,
        obj(vec![
            ("a", arr(vec![JsonValue::Bool(true), JsonValue::Null, s("s")])),
            ("b", JsonValue::Number("1".to_string())),
        ])
    );
    assert_eq!(parse_json_text("not json"), None);
    assert_eq!(parse_json_text(""), None);
}

#[test]
fn json_text_is_printed_pretty() {
    let doc = obj(vec![("a", JsonValue::Number("1".to_string())), ("b", arr(vec![s("x")]))]);
    assert_eq!(pretty_json_text(&doc), "{\n  \"a\": 1,\n  \"b\": [\n    \"x\"\n  ]\n}");
    assert_eq!(pretty_json_text(&JsonValue::Null), "null");
}

#[test]
fn opencode_file_text_keeps_the_old_settings() {
    let r = AnyRenderer::OpenCode(OpenCodeRenderer);
    let text = r.file_text(&config(), Some(r#"{"theme": "dark", "mcp": 1}"#));
    let back = parse_json_text(&text).unwrap();
    let mut expected = OpenCodeRenderer.render(&config());
    if let JsonValue::Object(m) = &mut expected {
        m.push(("theme".to_string(), s("dark")));
    }
    assert_eq!(sorted(&back), sorted(&expected));
}

#[test]
fn opencode_file_text_over_other_text_is_the_rendered_document() {
    let r = AnyRenderer::OpenCode(OpenCodeRenderer);
    for old in [None, Some("[1]"), Some("null"), Some("not json")] {
        let text = r.file_text(&config(), old);
        let back = parse_json_text(&text).unwrap();
        assert_eq!(sorted(&back), sorted(&OpenCodeRenderer.render(&config())));
    }
}

#[test]
fn other_agents_write_the_rendered_document() {
    for r in all_renderers() {
        if r.keeps_existing() {
            continue;
        }
        let text = r.file_text(&config(), Some(r#"{"theme": "dark"}"#));
        assert!(text.contains("\n  \""));
        let back = parse_json_text(&text).unwrap();
        assert_eq!(sorted(&back), sorted(&r.render(&config())));
    }
}
