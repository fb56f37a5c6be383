# mcplink

Universal MCP config sync: `.agents/mcp.json` is the single source of
truth, and every supported agent's MCP configuration file is rendered from
it.

- `src/` is the verified library: the JSON document model
  (`json`, `keyed`), reading and checking the universal configuration
  (`config`), rendering each agent's file (`renderers`, `detect`), the
  daemon's decisions and pid file (`daemon`), the service's state paths and
  label (`service`), the status and first-run output (`report`), project
  discovery (`project`), the command line's task (`cli`), and text helpers
  (`text`). `host` holds the questions asked of the machine; `json` also
  reads and prints JSON text through serde_json.
- `app/` is the program around it: command-line parsing, reading the
  configuration file with serde (into copies of the library's types), file
  writing, the file watcher and the system service manager.
- `tests/` exercises the library.
