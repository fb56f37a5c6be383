use mcplink::cli::{AgentsAction, Cli, Command, Task};
use mcplink::daemon::{
    is_write_event, next_action, parse_pid, pid_file_contents, proc_path, source_path, DaemonAction,
    EventKind, WatchMessage,
};
use mcplink::detect::{detect_agents, AgentInfo};
use mcplink::project::find_project_root;
use mcplink::report::{agent_line, daemon_status_line, detected_summary, none_detected};
use mcplink::service::{label, state_dir_in};
use mcplink::text::{chars_of, path_join, string_of, trim_chars};

#[test]
fn pid_file_round_trip() {
    for pid in [0u32, 7, 10, 4242, u32::MAX] {
        let text = pid_file_contents(pid);
        assert_eq!(text, pid.to_string());
        assert_eq!(parse_pid(&text), Some(pid));
    }
}

#[test]
fn pid_text_is_read_like_str_parse() {
    assert_eq!(parse_pid(" 42\n"), Some(42));
    assert_eq!(parse_pid("\u{3000}\t5 \u{85}"), Some(5));
    assert_eq!(parse_pid("+7"), Some(7));
    assert_eq!(parse_pid("007"), Some(7));
    assert_eq!(parse_pid("4294967295"), Some(u32::MAX));
    assert_eq!(parse_pid("4294967296"), None);
    assert_eq!(parse_pid("-1"), None);
    assert_eq!(parse_pid("+"), None);
    assert_eq!(parse_pid(""), None);
    assert_eq!(parse_pid("   "), None);
    assert_eq!(parse_pid("1 2"), None);
    assert_eq!(parse_pid("12a"), None);
    assert_eq!(parse_pid("\u{0663}"), None);
}

#[test]
fn trimming_matches_str_trim() {
    for text in ["", "  ", " a b ", "\u{2028}x\u{a0}", "x", "\u{200b}x"] {
        let t = trim_chars(&chars_of(text));
        assert_eq!(string_of(&t), text.trim());
    }
}

#[test]
fn proc_entry_of_a_pid() {
    assert_eq!(proc_path(1234), "/proc/1234");
}

#[test]
fn only_creation_and_modification_resync() {
    for k in [EventKind::Any, EventKind::Access, EventKind::Create, EventKind::Modify, EventKind::Remove, EventKind::Other] {
        let write = matches!(k, EventKind::Create | EventKind::Modify);
        assert_eq!(is_write_event(k), write);
        let expected = if write { DaemonAction::Resync } else { DaemonAction::Ignore };
        assert_eq!(next_action(WatchMessage::Event(k)), expected);
    }
    assert_eq!(next_action(WatchMessage::Error), DaemonAction::ReportError);
    assert_eq!(next_action(WatchMessage::Closed), DaemonAction::Stop);
}

#[test]
fn paths_join_like_unix_paths() {
    assert_eq!(path_join("/a", "b"), "/a/b");
    assert_eq!(path_join("/a/", "b"), "/a/b");
    assert_eq!(path_join("", "b"), "b");
    assert_eq!(path_join("/a", "/b"), "/b");
    assert_eq!(source_path("/proj"), "/proj/.agents/mcp.json");
}

#[test]
fn state_directory_falls_back_to_tmp() {
    assert_eq!(state_dir_in(None), "/tmp/agents-mcp");
    assert_eq!(state_dir_in(Some("/home/a/.local/share".to_string())), "/home/a/.local/share/agents-mcp");
}

#[test]
fn service_label_parts() {
    let l = label();
    assert_eq!(l.qualifier, None);
    assert_eq!(l.organization.as_deref(), Some("dev"));
    assert_eq!(l.application, "agents-mcp");
}

#[test]
fn command_line_tasks() {
    let cli = |daemon: bool, command: Option<Command>| Cli { daemon, command };
    assert_eq!(cli(true, Some(Command::Status)).task(), Task::RunDaemon);
    assert_eq!(cli(false, None).task(), Task::FirstRun);
    assert_eq!(cli(false, Some(Command::Status)).task(), Task::Status);
    assert_eq!(cli(false, Some(Command::Sync)).task(), Task::Sync);
    assert_eq!(cli(false, Some(Command::Stop)).task(), Task::Stop);
    assert_eq!(cli(false, Some(Command::Uninstall)).task(), Task::Uninstall);
    assert_eq!(cli(false, Some(Command::Agents { action: None })).task(), Task::ListAgents);
    assert_eq!(
        cli(false, Some(Command::Agents { action: Some(AgentsAction::List) })).task(),
        Task::ListAgents
    );
}

#[test]
fn no_agent_in_an_empty_place() {
    let agents = detect_agents("/nonexistent/mcplink/project");
    let names: Vec<&str> = agents.iter().map(|a| a.name).collect();
    assert_eq!(names, vec!["cursor", "code-cli", "copilot", "vscode", "windsurf", "opencode"]);
    assert!(none_detected(&agents));
    assert_eq!(detected_summary(&agents), "Detected agents: ");
}

#[test]
fn status_and_summary_lines() {
    assert_eq!(daemon_status_line(Some(99)), "● Daemon running (PID 99)");
    assert_eq!(daemon_status_line(None), "○ Daemon not running");
    let agents = vec![
        AgentInfo { name: "cursor", present: true },
        AgentInfo { name: "vscode", present: false },
        AgentInfo { name: "opencode", present: true },
    ];
    assert_eq!(agent_line(&agents[0]), "  ✓ cursor");
    assert_eq!(agent_line(&agents[1]), "    vscode");
    assert_eq!(detected_summary(&agents), "Detected agents: cursor, opencode");
    assert!(!none_detected(&agents));
}

#[test]
fn no_project_root_without_candidates() {
    let err = find_project_root(&vec![]).unwrap_err();
    assert_eq!(
        err.message(),
        "No .agents/mcp.json found in current or parent directories.\nCreate one at the root of your project."
    );
    assert!(find_project_root(&vec!["/nonexistent/mcplink".to_string()]).is_err());
}

#[test]
fn state_files_live_in_the_state_directory() {
    assert!(mcplink::daemon::pid_file_path().ends_with("agents-mcp/daemon.pid"));
    assert!(mcplink::service::installed_flag().ends_with("agents-mcp/.installed"));
    assert!(mcplink::service::state_dir().ends_with("agents-mcp"));
}

#[test]
fn the_first_candidate_with_a_source_is_the_root() {
    let c = vec!["/a/b".to_string(), "/a".to_string(), "/".to_string()];
    assert_eq!(mcplink::project::pick_project_root(&c, &vec![false, true, true]).unwrap(), "/a");
    assert_eq!(mcplink::project::pick_project_root(&c, &vec![true]).unwrap(), "/a/b");
    assert!(mcplink::project::pick_project_root(&c, &vec![false, false]).is_err());
    assert!(mcplink::project::pick_project_root(&c, &vec![]).is_err());
}

#[test]
fn pid_file_and_flag_share_the_state_directory() {
    let base = Some("/home/a/.local/share".to_string());
    assert_eq!(mcplink::daemon::pid_file_in(base.clone()), "/home/a/.local/share/agents-mcp/daemon.pid");
    assert_eq!(mcplink::service::installed_flag_in(base), "/home/a/.local/share/agents-mcp/.installed");
    assert_eq!(mcplink::daemon::pid_file_in(None), "/tmp/agents-mcp/daemon.pid");
    assert_eq!(mcplink::service::installed_flag_in(None), "/tmp/agents-mcp/.installed");
}

#[test]
fn a_pid_counts_only_while_its_process_lives() {
    assert_eq!(mcplink::daemon::alive_pid(42, true), Some(42));
    assert_eq!(mcplink::daemon::alive_pid(42, false), None);
    assert_eq!(mcplink::daemon::running_daemon(None), None);
    assert_eq!(mcplink::daemon::running_daemon(Some("not a pid".to_string())), None);
    assert_eq!(mcplink::daemon::running_daemon(Some("4294967295".to_string())), None);
    assert_eq!(mcplink::daemon::running_daemon(Some("1\n".to_string())), Some(1));
}

#[test]
fn agents_are_present_as_their_answers_say() {
    let infos = mcplink::detect::agent_infos(&vec![true, false, true]);
    let names: Vec<&str> = infos.iter().map(|a| a.name).collect();
    assert_eq!(names, vec!["cursor", "code-cli", "copilot", "vscode", "windsurf", "opencode"]);
    let present: Vec<bool> = infos.iter().map(|a| a.present).collect();
    assert_eq!(present, vec![true, false, true, false, false, false]);
}
