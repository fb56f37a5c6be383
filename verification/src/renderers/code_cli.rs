//! The Code CLI agent: `.mcp.json` at the project root, servers under `mcpServers`.

use vstd::prelude::*;
use crate::config::{ConfigView, UniversalConfig};
use crate::json::{Json, JsonValue};
use crate::renderers::{render_servers_document, servers_document, AgentRenderer, Layout};
use crate::text::{join_path, path_join};

verus! {

/// Renders the configuration for the Code CLI agent.
pub struct CodeCliRenderer;

impl AgentRenderer for CodeCliRenderer {
    open spec fn spec_name(&self) -> Seq<char> {
        "code-cli"@
    }

    open spec fn spec_config_path(&self, project_root: Seq<char>) -> Seq<char> {
        join_path(project_root, ".mcp.json"@)
    }

    open spec fn spec_render(&self, config: ConfigView) -> Json {
        servers_document("mcpServers"@, config, Layout::Common)
    }

    open spec fn spec_document(&self, config: ConfigView, existing: Option<Json>) -> Json {
        self.spec_render(config)
    }

    open spec fn spec_keeps_existing(&self) -> bool {
        false
    }

    fn name(&self) -> (r: &'static str) {
        "code-cli"
    }

    fn config_path(&self, project_root: &str) -> (r: String) {
        path_join(project_root, ".mcp.json")
    }

    fn render(&self, config: &UniversalConfig) -> (r: JsonValue) {
        render_servers_document("mcpServers", config, Layout::Common)
    }

    fn document(&self, config: &UniversalConfig, existing: Option<JsonValue>) -> (r: JsonValue) {
        self.render(config)
    }

    fn keeps_existing(&self) -> (r: bool) {
        false
    }
}

} // verus!
