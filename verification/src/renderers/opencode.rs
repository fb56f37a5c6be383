//! OpenCode: `opencode.json`, servers under `mcp`, in a file that also
//! holds OpenCode's other settings.

use vstd::prelude::*;
use vstd::string::*;
use crate::config::{ConfigView, UniversalConfig};
use crate::json::{json_clone, lemma_object_view, members_view, Json, JsonValue};
use crate::keyed::{
    keyed_insert, lemma_object_insert_idempotent, lemma_object_insert_lookup, lookup, object_insert,
};
use crate::renderers::{
    render_servers_document, server_members, servers_document, AgentRenderer, Layout,
};
use crate::text::{join_path, path_join};

verus! {

/// The members of a document that is an object; none for any other document.
pub open spec fn object_members(j: Json) -> Seq<(Seq<char>, Json)> {
    match j {
        Json::Object(e) => e,
        _ => seq![],
    }
}

/// The object `existing` with its `mcp` member set to the `mcp` member of
/// `rendered` (left as it is when `rendered` has none). A document that is
/// not an object counts as an empty object, so the result is always an
/// object.
pub open spec fn merge_mcp(existing: Json, rendered: Json) -> Json {
    let e = object_members(existing);
    match rendered {
        Json::Object(r) => match lookup(r, "mcp"@) {
            Some(m) => Json::Object(object_insert(e, "mcp"@, m)),
            None => Json::Object(e),
        },
        _ => Json::Object(e),
    }
}

/// What OpenCode's file holds before the servers are merged into it: the
/// old document when it is an object, and an empty object when there is
/// none, it did not hold JSON, or it holds JSON that is not an object.
pub open spec fn opencode_base(existing: Option<Json>) -> Json {
    match existing {
        Some(Json::Object(e)) => Json::Object(e),
        _ => Json::Object(seq![]),
    }
}

/// Sets the `mcp` member of `existing` to the `mcp` member of `rendered`
/// (see `merge_mcp`).
pub fn merge_rendered(existing: JsonValue, rendered: &JsonValue) -> (r: JsonValue)
    ensures
        r@ == merge_mcp(existing@, rendered@),
{
    let mut m: Vec<(String, JsonValue)> = match existing {
        JsonValue::Object(m) => {
            proof {
                lemma_object_view(m);
            }
            m
        },
        _ => {
            let empty: Vec<(String, JsonValue)> = Vec::new();
            assert(members_view(empty@) =~= Seq::<(Seq<char>, Json)>::empty());
            empty
        },
    };
    assert(members_view(m@) == object_members(existing@));
    match rendered.get("mcp") {
        Some(mcp) => {
            let value = json_clone(mcp);
            keyed_insert(&mut m, String::from_str("mcp"), value);
        },
        None => {},
    }
    proof {
        lemma_object_view(m);
    }
    JsonValue::Object(m)
}

/// Renders the configuration for OpenCode.
pub struct OpenCodeRenderer;

impl AgentRenderer for OpenCodeRenderer {
    open spec fn spec_name(&self) -> Seq<char> {
        "opencode"@
    }

    open spec fn spec_config_path(&self, project_root: Seq<char>) -> Seq<char> {
        join_path(project_root, "opencode.json"@)
    }

    open spec fn spec_render(&self, config: ConfigView) -> Json {
        servers_document("mcp"@, config, Layout::OpenCode)
    }

    open spec fn spec_document(&self, config: ConfigView, existing: Option<Json>) -> Json {
        merge_mcp(opencode_base(existing), self.spec_render(config))
    }

    open spec fn spec_keeps_existing(&self) -> bool {
        true
    }

    fn name(&self) -> (r: &'static str) {
        "opencode"
    }

    fn config_path(&self, project_root: &str) -> (r: String) {
        path_join(project_root, "opencode.json")
    }

    fn render(&self, config: &UniversalConfig) -> (r: JsonValue) {
        render_servers_document("mcp", config, Layout::OpenCode)
    }

    fn document(&self, config: &UniversalConfig, existing: Option<JsonValue>) -> (r: JsonValue) {
        let rendered = self.render(config);
        let base = match existing {
            Some(JsonValue::Object(m)) => JsonValue::Object(m),
            _ => {
                let empty: Vec<(String, JsonValue)> = Vec::new();
                proof {
                    lemma_object_view(empty);
                    assert(members_view(empty@) =~= Seq::<(Seq<char>, Json)>::empty());
                }
                JsonValue::Object(empty)
            },
        };
        merge_rendered(base, &rendered)
    }

    fn keeps_existing(&self) -> (r: bool) {
        true
    }
}

/// Writing OpenCode's file always gives an object whose `mcp` member is
/// the rendered servers; every other member is the one the old file held
/// when that was an object, and there is none otherwise.
pub proof fn lemma_opencode_keeps_other_settings(
    config: ConfigView,
    existing: Option<Json>,
    other: Seq<char>,
)
    ensures
        OpenCodeRenderer.spec_document(config, existing) matches Json::Object(m) && lookup(
            m,
            "mcp"@,
        ) == Some(Json::Object(server_members(config.servers, Layout::OpenCode))) && (other
            != "mcp"@ ==> lookup(m, other) == lookup(
            object_members(opencode_base(existing)),
            other,
        )),
        existing matches Some(Json::Object(e)) ==> object_members(opencode_base(existing)) == e,
        !(existing matches Some(Json::Object(_))) ==> object_members(opencode_base(existing))
            == Seq::<(Seq<char>, Json)>::empty(),
{
    let v = Json::Object(server_members(config.servers, Layout::OpenCode));
    let rendered = servers_document("mcp"@, config, Layout::OpenCode);
    if let Json::Object(r) = rendered {
        assert(lookup(r, "mcp"@) == Some(v));
    }
    lemma_object_insert_lookup(object_members(opencode_base(existing)), "mcp"@, v, other);
}

/// Writing OpenCode's file a second time from the same configuration
/// leaves it as the first write made it.
pub proof fn lemma_opencode_document_idempotent(config: ConfigView, existing: Option<Json>)
    ensures
        OpenCodeRenderer.spec_document(
            config,
            Some(OpenCodeRenderer.spec_document(config, existing)),
        ) == OpenCodeRenderer.spec_document(config, existing),
{
    let v = Json::Object(server_members(config.servers, Layout::OpenCode));
    let rendered = servers_document("mcp"@, config, Layout::OpenCode);
    if let Json::Object(r) = rendered {
        assert(lookup(r, "mcp"@) == Some(v));
    }
    lemma_object_insert_idempotent(object_members(opencode_base(existing)), "mcp"@, v);
}

} // verus!
