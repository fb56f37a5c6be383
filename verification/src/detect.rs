//! The agents this library knows and which of them a project already has.

use vstd::prelude::*;
use crate::config::{ConfigView, UniversalConfig};
use crate::host::path_exists;
use crate::json::{json_of_text, parse_json_text, pretty_json_text, pretty_text_of, Json, JsonValue};
use crate::renderers::code_cli::CodeCliRenderer;
use crate::renderers::copilot::CopilotRenderer;
use crate::renderers::cursor::CursorRenderer;
use crate::renderers::opencode::OpenCodeRenderer;
use crate::renderers::vscode::VSCodeRenderer;
use crate::renderers::windsurf::WindsurfRenderer;
use crate::renderers::{
    lemma_document_names_every_server, lemma_document_one_entry_per_name, rendered_servers, AgentRenderer,
};
use crate::keyed::{distinct_names, member_names};

verus! {

/// One of the agents whose configuration this library writes.
pub enum AnyRenderer {
    Cursor(CursorRenderer),
    CodeCli(CodeCliRenderer),
    Copilot(CopilotRenderer),
    VSCode(VSCodeRenderer),
    Windsurf(WindsurfRenderer),
    OpenCode(OpenCodeRenderer),
}

impl AgentRenderer for AnyRenderer {
    open spec fn spec_name(&self) -> Seq<char> {
        match self {
            AnyRenderer::Cursor(r) => r.spec_name(),
            AnyRenderer::CodeCli(r) => r.spec_name(),
            AnyRenderer::Copilot(r) => r.spec_name(),
            AnyRenderer::VSCode(r) => r.spec_name(),
            AnyRenderer::Windsurf(r) => r.spec_name(),
            AnyRenderer::OpenCode(r) => r.spec_name(),
        }
    }

    open spec fn spec_config_path(&self, project_root: Seq<char>) -> Seq<char> {
        match self {
            AnyRenderer::Cursor(r) => r.spec_config_path(project_root),
            AnyRenderer::CodeCli(r) => r.spec_config_path(project_root),
            AnyRenderer::Copilot(r) => r.spec_config_path(project_root),
            AnyRenderer::VSCode(r) => r.spec_config_path(project_root),
            AnyRenderer::Windsurf(r) => r.spec_config_path(project_root),
            AnyRenderer::OpenCode(r) => r.spec_config_path(project_root),
        }
    }

    open spec fn spec_render(&self, config: ConfigView) -> Json {
        match self {
            AnyRenderer::Cursor(r) => r.spec_render(config),
            AnyRenderer::CodeCli(r) => r.spec_render(config),
            AnyRenderer::Copilot(r) => r.spec_render(config),
            AnyRenderer::VSCode(r) => r.spec_render(config),
            AnyRenderer::Windsurf(r) => r.spec_render(config),
            AnyRenderer::OpenCode(r) => r.spec_render(config),
        }
    }

    open spec fn spec_document(&self, config: ConfigView, existing: Option<Json>) -> Json {
        match self {
            AnyRenderer::Cursor(r) => r.spec_document(config, existing),
            AnyRenderer::CodeCli(r) => r.spec_document(config, existing),
            AnyRenderer::Copilot(r) => r.spec_document(config, existing),
            AnyRenderer::VSCode(r) => r.spec_document(config, existing),
            AnyRenderer::Windsurf(r) => r.spec_document(config, existing),
            AnyRenderer::OpenCode(r) => r.spec_document(config, existing),
        }
    }

    open spec fn spec_keeps_existing(&self) -> bool {
        match self {
            AnyRenderer::Cursor(r) => r.spec_keeps_existing(),
            AnyRenderer::CodeCli(r) => r.spec_keeps_existing(),
            AnyRenderer::Copilot(r) => r.spec_keeps_existing(),
            AnyRenderer::VSCode(r) => r.spec_keeps_existing(),
            AnyRenderer::Windsurf(r) => r.spec_keeps_existing(),
            AnyRenderer::OpenCode(r) => r.spec_keeps_existing(),
        }
    }

    fn name(&self) -> (r: &'static str) {
        match self {
            AnyRenderer::Cursor(r) => r.name(),
            AnyRenderer::CodeCli(r) => r.name(),
            AnyRenderer::Copilot(r) => r.name(),
            AnyRenderer::VSCode(r) => r.name(),
            AnyRenderer::Windsurf(r) => r.name(),
            AnyRenderer::OpenCode(r) => r.name(),
        }
    }

    fn config_path(&self, project_root: &str) -> (r: String) {
        match self {
            AnyRenderer::Cursor(r) => r.config_path(project_root),
            AnyRenderer::CodeCli(r) => r.config_path(project_root),
            AnyRenderer::Copilot(r) => r.config_path(project_root),
            AnyRenderer::VSCode(r) => r.config_path(project_root),
            AnyRenderer::Windsurf(r) => r.config_path(project_root),
            AnyRenderer::OpenCode(r) => r.config_path(project_root),
        }
    }

    fn render(&self, config: &UniversalConfig) -> (r: JsonValue) {
        match self {
            AnyRenderer::Cursor(r) => r.render(config),
            AnyRenderer::CodeCli(r) => r.render(config),
            AnyRenderer::Copilot(r) => r.render(config),
            AnyRenderer::VSCode(r) => r.render(config),
            AnyRenderer::Windsurf(r) => r.render(config),
            AnyRenderer::OpenCode(r) => r.render(config),
        }
    }

    fn document(&self, config: &UniversalConfig, existing: Option<JsonValue>) -> (r: JsonValue) {
        match self {
            AnyRenderer::Cursor(r) => r.document(config, existing),
            AnyRenderer::CodeCli(r) => r.document(config, existing),
            AnyRenderer::Copilot(r) => r.document(config, existing),
            AnyRenderer::VSCode(r) => r.document(config, existing),
            AnyRenderer::Windsurf(r) => r.document(config, existing),
            AnyRenderer::OpenCode(r) => r.document(config, existing),
        }
    }

    fn keeps_existing(&self) -> (r: bool) {
        match self {
            AnyRenderer::Cursor(r) => r.keeps_existing(),
            AnyRenderer::CodeCli(r) => r.keeps_existing(),
            AnyRenderer::Copilot(r) => r.keeps_existing(),
            AnyRenderer::VSCode(r) => r.keeps_existing(),
            AnyRenderer::Windsurf(r) => r.keeps_existing(),
            AnyRenderer::OpenCode(r) => r.keeps_existing(),
        }
    }
}

/// What an agent's file held before, as the document the agent reads: the
/// old text's document for an agent that keeps it, nothing otherwise.
pub open spec fn old_document(keeps: bool, old_text: Option<&str>) -> Option<Json> {
    if keeps {
        match old_text {
            Some(t) => json_of_text(t@),
            None => None,
        }
    } else {
        None
    }
}

impl AnyRenderer {
    /// The text to write into the agent's file, given the text the file
    /// held before (`None` when there is no file): the agent's document,
    /// printed as JSON.
    pub fn file_text(&self, config: &UniversalConfig, old_text: Option<&str>) -> (r: String)
        ensures
            r@ == pretty_text_of(
                self.spec_document(config@, old_document(self.spec_keeps_existing(), old_text)),
            ),
    {
        let existing = if self.keeps_existing() {
            match old_text {
                Some(t) => parse_json_text(t),
                None => None,
            }
        } else {
            None
        };
        let doc = self.document(config, existing);
        pretty_json_text(&doc)
    }

    /// Whether the agent's configuration file exists under `project_root`.
    /// The answer depends on the disk; what is asked is fixed: the
    /// existence of `config_path(project_root)`.
    pub fn config_exists(&self, project_root: &str) -> bool {
        let path = self.config_path(project_root);
        path_exists(path.as_str())
    }
}

/// Every agent, in the order in which they are synced and listed.
pub open spec fn agents() -> Seq<AnyRenderer> {
    seq![
        AnyRenderer::Cursor(CursorRenderer),
        AnyRenderer::CodeCli(CodeCliRenderer),
        AnyRenderer::Copilot(CopilotRenderer),
        AnyRenderer::VSCode(VSCodeRenderer),
        AnyRenderer::Windsurf(WindsurfRenderer),
        AnyRenderer::OpenCode(OpenCodeRenderer),
    ]
}

/// Every agent: Cursor, the Code CLI agent, Copilot, VS Code, Windsurf, OpenCode.
pub fn all_renderers() -> (r: Vec<AnyRenderer>)
    ensures
        r@ == agents(),
{
    let mut r: Vec<AnyRenderer> = Vec::new();
    r.push(AnyRenderer::Cursor(CursorRenderer));
    r.push(AnyRenderer::CodeCli(CodeCliRenderer));
    r.push(AnyRenderer::Copilot(CopilotRenderer));
    r.push(AnyRenderer::VSCode(VSCodeRenderer));
    r.push(AnyRenderer::Windsurf(WindsurfRenderer));
    r.push(AnyRenderer::OpenCode(OpenCodeRenderer));
    assert(r@ =~= agents());
    r
}

/// An agent and whether the project already has its configuration file.
#[derive(Debug)]
pub struct AgentInfo {
    pub name: &'static str,
    pub present: bool,
}

/// Every agent, in order, present as `present` says: the agent at index
/// `i` is present when `present` holds `true` at `i`.
pub fn agent_infos(present: &Vec<bool>) -> (r: Vec<AgentInfo>)
    ensures
        r@.len() == agents().len(),
        forall|i: int|
            0 <= i < r@.len() ==> (#[trigger] r@[i]).name@ == agents()[i].spec_name() && r@[i].present
                == (i < present@.len() && present@[i]),
{
    let renderers = all_renderers();
    let mut out: Vec<AgentInfo> = Vec::new();
    let mut i: usize = 0;
    while i < renderers.len()
        invariant
            renderers@ == agents(),
            i <= renderers@.len(),
            out@.len() == i,
            forall|k: int|
                0 <= k < i ==> (#[trigger] out@[k]).name@ == agents()[k].spec_name() && out@[k].present
                    == (k < present@.len() && present@[k]),
        decreases renderers@.len() - i,
    {
        let here = i < present.len() && present[i];
        out.push(AgentInfo { name: renderers[i].name(), present: here });
        i = i + 1;
    }
    out
}

/// Every agent, in order, with whether its configuration file exists under
/// `project_root`: each agent is asked `config_exists`, and the answers
/// (which depend on the disk) go through `agent_infos`.
pub fn detect_agents(project_root: &str) -> (r: Vec<AgentInfo>)
    ensures
        r@.len() == agents().len(),
        forall|i: int| 0 <= i < r@.len() ==> (#[trigger] r@[i]).name@ == agents()[i].spec_name(),
{
    let renderers = all_renderers();
    let mut present: Vec<bool> = Vec::new();
    let mut i: usize = 0;
    while i < renderers.len()
        invariant
            i <= renderers@.len(),
        decreases renderers@.len() - i,
    {
        present.push(renderers[i].config_exists(project_root));
        i = i + 1;
    }
    agent_infos(&present)
}

/// One source of truth: every agent's configuration names exactly the
/// servers of the universal configuration, in the model's order (a written
/// file shows the names sorted), when that names each server once.
pub proof fn lemma_every_agent_names_every_server(config: ConfigView)
    requires
        distinct_names(config.servers),
    ensures
        forall|i: int|
            0 <= i < agents().len() ==> member_names(
                rendered_servers(#[trigger] agents()[i].spec_render(config)),
            ) == member_names(config.servers),
{
    lemma_document_names_every_server("mcpServers"@, config, crate::renderers::Layout::Common);
    lemma_document_names_every_server("servers"@, config, crate::renderers::Layout::Common);
    lemma_document_names_every_server("mcp"@, config, crate::renderers::Layout::OpenCode);
    assert forall|i: int| 0 <= i < agents().len() implies member_names(
        rendered_servers(#[trigger] agents()[i].spec_render(config)),
    ) == member_names(config.servers) by {
        if i == 0 {
        } else if i == 1 {
        } else if i == 2 {
        } else if i == 3 {
        } else if i == 4 {
        } else {
        }
    }
}

/// Every agent but OpenCode writes a file that does not depend on what the
/// file held before; OpenCode's file depends on it only through its other
/// settings.
pub proof fn lemma_document_is_render(config: ConfigView, existing: Option<Json>)
    ensures
        forall|i: int|
            0 <= i < agents().len() && !agents()[i].spec_keeps_existing() ==> (#[trigger] agents()[i]).spec_document(
                config,
                existing,
            ) == agents()[i].spec_render(config),
{
}

/// Syncing twice from the same configuration writes what syncing once
/// wrote: for every agent, the document made over the file that the first
/// sync left is that file again.
pub proof fn lemma_sync_is_idempotent(config: ConfigView, existing: Option<Json>)
    ensures
        forall|i: int|
            0 <= i < agents().len() ==> (#[trigger] agents()[i]).spec_document(
                config,
                Some(agents()[i].spec_document(config, existing)),
            ) == agents()[i].spec_document(config, existing),
{
    crate::renderers::opencode::lemma_opencode_document_idempotent(config, existing);
    assert forall|i: int| 0 <= i < agents().len() implies (#[trigger] agents()[i]).spec_document(
        config,
        Some(agents()[i].spec_document(config, existing)),
    ) == agents()[i].spec_document(config, existing) by {
        if i == 5 {
        }
    }
}

/// One source of truth, for any configuration: every agent's configuration
/// holds one entry for each server name of the universal configuration and
/// for no other name, even where the universal configuration repeats a name.
pub proof fn lemma_every_agent_one_entry_per_name(config: ConfigView, name: Seq<char>)
    ensures
        forall|i: int|
            0 <= i < agents().len() ==> {
                &&& distinct_names(rendered_servers(#[trigger] agents()[i].spec_render(config)))
                &&& (member_names(rendered_servers(agents()[i].spec_render(config))).contains(name)
                    <==> member_names(config.servers).contains(name))
            },
{
    lemma_document_one_entry_per_name("mcpServers"@, config, crate::renderers::Layout::Common, name);
    lemma_document_one_entry_per_name("servers"@, config, crate::renderers::Layout::Common, name);
    lemma_document_one_entry_per_name("mcp"@, config, crate::renderers::Layout::OpenCode, name);
}

} // verus!
