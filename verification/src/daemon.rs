//! The daemon: which file it watches, how it answers what the watcher
//! reports, and the file in which it leaves its process id.

use vstd::prelude::*;
use vstd::string::*;
use crate::config::opt_text;
use crate::host::{data_local_dir, path_exists};
use crate::service::{state_dir_for, state_dir_in};
use crate::text::{
    chars_of, decimal, decimal_chars, digit_char, digit_value, digits_value, is_digit, join_path,
    parse_u32, parse_u32_spec, path_join, string_of, trim_chars, trimmed,
};

verus! {

/// The universal configuration file of a project.
pub open spec fn source_path_of(project_root: Seq<char>) -> Seq<char> {
    join_path(join_path(project_root, ".agents"@), "mcp.json"@)
}

/// `.agents/mcp.json` under the project root.
pub fn source_path(project_root: &str) -> (r: String)
    ensures
        r@ == source_path_of(project_root@),
{
    let dir = path_join(project_root, ".agents");
    path_join(dir.as_str(), "mcp.json")
}

/// The file in which the daemon leaves its process id.
pub open spec fn pid_file_for(base: Option<Seq<char>>) -> Seq<char> {
    join_path(state_dir_for(base), "daemon.pid"@)
}

/// The file in which the daemon leaves its process id, under the user's
/// local data directory (which the platform and the environment decide).
pub fn pid_file_path() -> (r: String)
    ensures
        exists|b: Option<Seq<char>>| r@ == pid_file_for(b),
{
    let base = data_local_dir();
    let r = pid_file_in(base);
    assert(r@ == pid_file_for(opt_text(base)));
    r
}

/// The pid file under a given local data directory.
pub fn pid_file_in(base: Option<String>) -> (r: String)
    ensures
        r@ == pid_file_for(opt_text(base)),
{
    let dir = state_dir_in(base);
    path_join(dir.as_str(), "daemon.pid")
}

/// For any local data directory, the pid file and the installed flag are
/// two different files directly in the same state directory.
pub proof fn lemma_state_files_share_directory(base: Option<Seq<char>>)
    ensures
        pid_file_for(base) == join_path(state_dir_for(base), "daemon.pid"@),
        crate::service::installed_flag_for(base) == join_path(state_dir_for(base), ".installed"@),
        pid_file_for(base) != crate::service::installed_flag_for(base),
{
    reveal_strlit("daemon.pid");
    reveal_strlit(".installed");
    let d = state_dir_for(base);
    let p = pid_file_for(base);
    let f = crate::service::installed_flag_for(base);
    reveal_strlit("agents-mcp");
    reveal_strlit("/tmp");
    assert(d.len() > 0);
    assert(d.last() != '/');
    assert(p.len() == d.len() + 11);
    assert(f.len() == d.len() + 11);
    assert(p[d.len() as int + 1] == 'd');
    assert(f[d.len() as int + 1] == '.');
}

/// What the daemon writes into its pid file: the id in decimal.
pub fn pid_file_contents(pid: u32) -> (r: String)
    ensures
        r@ == decimal(pid as nat),
{
    let cs = decimal_chars(pid);
    string_of(cs.as_slice())
}

/// The process id that a pid file holds: its text without surrounding
/// white space, read as a `u32`.
pub fn parse_pid(text: &str) -> (r: Option<u32>)
    ensures
        r == parse_u32_spec(trimmed(text@)),
{
    let cs = chars_of(text);
    let t = trim_chars(cs.as_slice());
    parse_u32(t.as_slice())
}

proof fn lemma_decimal_digits(n: nat)
    ensures
        decimal(n).len() > 0,
        forall|i: int| 0 <= i < decimal(n).len() ==> is_digit(#[trigger] decimal(n)[i]),
        digits_value(decimal(n)) == n,
    decreases n,
{
    let last = (n % 10) as int;
    assert(digit_char(last) as int == last + 48);
    if n >= 10 {
        lemma_decimal_digits(n / 10);
        let d = decimal(n);
        assert(d.drop_last() =~= decimal(n / 10));
        assert(d.last() == digit_char(last));
        assert(n == (n / 10) * 10 + last);
        assert(digit_value(d.last()) == last);
        assert(digits_value(d) == digits_value(d.drop_last()) * 10 + digit_value(d.last()));
        assert forall|i: int| 0 <= i < d.len() implies is_digit(#[trigger] d[i]) by {
            if i < d.len() - 1 {
                assert(d[i] == decimal(n / 10)[i]);
            }
        }
    } else {
        let d = decimal(n);
        assert(d.drop_last() =~= Seq::<char>::empty());
        assert(d.last() == digit_char(last));
        assert(digit_value(d.last()) == last);
        assert(digits_value(d) == digits_value(d.drop_last()) * 10 + digit_value(d.last()));
    }
}

proof fn lemma_digits_untrimmed(s: Seq<char>)
    requires
        s.len() > 0,
        forall|i: int| 0 <= i < s.len() ==> is_digit(#[trigger] s[i]),
    ensures
        trimmed(s) == s,
{
    assert(is_digit(s[0]));
    assert(is_digit(s.last()));
}

/// A pid file written by the daemon reads back as the daemon's process id.
pub proof fn lemma_pid_round_trip(pid: u32)
    ensures
        parse_u32_spec(trimmed(decimal(pid as nat))) == Some(pid),
{
    let d = decimal(pid as nat);
    lemma_decimal_digits(pid as nat);
    lemma_digits_untrimmed(d);
    assert(is_digit(d[0]));
}

/// The `/proc` entry of a process.
pub fn proc_path(pid: u32) -> (r: String)
    ensures
        r@ == "/proc/"@ + decimal(pid as nat),
{
    let mut r = String::from_str("/proc/");
    let digits = pid_file_contents(pid);
    r.append(digits.as_str());
    r
}

/// The daemon's process id, given the id its pid file holds and whether
/// that process's `/proc` entry exists: the id when it does, none otherwise.
pub fn alive_pid(pid: u32, proc_entry_exists: bool) -> (r: Option<u32>)
    ensures
        r == (if proc_entry_exists {
            Some(pid)
        } else {
            None
        }),
{
    if proc_entry_exists {
        Some(pid)
    } else {
        None
    }
}

/// The process id of a running daemon, given the text of the pid file
/// (`None` when there is no pid file) and whether the `/proc` entry of the
/// id it holds exists.
pub open spec fn running_daemon_for(pid_file_text: Option<Seq<char>>, alive: bool) -> Option<u32> {
    match pid_file_text {
        None => None,
        Some(t) => match parse_u32_spec(trimmed(t)) {
            None => None,
            Some(p) => if alive {
                Some(p)
            } else {
                None
            },
        },
    }
}

/// The process id of a running daemon, given the text of the pid file
/// (`None` when there is no pid file): the id is the one the file holds,
/// and is given only when its `/proc` entry exists (which depends on the
/// machine).
pub fn running_daemon(pid_file_text: Option<String>) -> (r: Option<u32>)
    ensures
        r matches Some(p) ==> pid_file_text matches Some(t) && parse_u32_spec(trimmed(t@))
            == Some(p),
        pid_file_text is None ==> r is None,
        pid_file_text matches Some(t) && parse_u32_spec(trimmed(t@)) is None ==> r is None,
        exists|alive: bool| r == #[trigger] running_daemon_for(opt_text(pid_file_text), alive),
{
    match pid_file_text {
        None => {
            assert(running_daemon_for(opt_text(pid_file_text), false) == None::<u32>);
            None
        },
        Some(t) => match parse_pid(t.as_str()) {
            None => {
                assert(running_daemon_for(opt_text(pid_file_text), false) == None::<u32>);
                None
            },
            Some(pid) => {
                let proc = proc_path(pid);
                let alive = path_exists(proc.as_str());
                let r = alive_pid(pid, alive);
                assert(r == running_daemon_for(opt_text(pid_file_text), alive));
                r
            },
        },
    }
}

/// The kind of a change that the file watcher reports.
#[derive(Debug, Clone, Copy, PartialEq, Eq, Structural)]
pub enum EventKind {
    Any,
    Access,
    Create,
    Modify,
    Remove,
    Other,
}

/// Whether a change may have altered the file's content: it was created
/// or modified.
pub fn is_write_event(kind: EventKind) -> (r: bool)
    ensures
        r == (kind is Create || kind is Modify),
{
    match kind {
        EventKind::Modify | EventKind::Create => true,
        _ => false,
    }
}

/// What the watcher hands the daemon.
#[derive(Debug, Clone, Copy, PartialEq, Eq, Structural)]
pub enum WatchMessage {
    /// A change of the given kind.
    Event(EventKind),
    /// The watcher reported an error.
    Error,
    /// The watcher is gone.
    Closed,
}

/// What the daemon does next.
#[derive(Debug, Clone, Copy, PartialEq, Eq, Structural)]
pub enum DaemonAction {
    /// Wait a moment, read the configuration again and write every agent's file.
    Resync,
    /// Nothing.
    Ignore,
    /// Report the watcher's error and go on.
    ReportError,
    /// Remove the pid file and stop.
    Stop,
}

pub open spec fn action_for(msg: WatchMessage) -> DaemonAction {
    match msg {
        WatchMessage::Event(k) => if k is Create || k is Modify {
            DaemonAction::Resync
        } else {
            DaemonAction::Ignore
        },
        WatchMessage::Error => DaemonAction::ReportError,
        WatchMessage::Closed => DaemonAction::Stop,
    }
}

/// The daemon's answer to what the watcher hands it: a change that may
/// have altered the configuration brings a resync, an error is reported,
/// and the watcher's end stops the daemon.
pub fn next_action(msg: WatchMessage) -> (r: DaemonAction)
    ensures
        r == action_for(msg),
{
    match msg {
        WatchMessage::Event(k) => if is_write_event(k) {
            DaemonAction::Resync
        } else {
            DaemonAction::Ignore
        },
        WatchMessage::Error => DaemonAction::ReportError,
        WatchMessage::Closed => DaemonAction::Stop,
    }
}

} // verus!
