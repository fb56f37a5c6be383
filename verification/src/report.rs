//! The lines that the status and first-run commands print.

use vstd::prelude::*;
use vstd::string::*;
use crate::detect::AgentInfo;
use crate::text::{decimal, join_texts, join_with};

verus! {

/// The first line of the status: the daemon's process id if it runs.
pub open spec fn daemon_line(running: Option<u32>) -> Seq<char> {
    match running {
        Some(pid) => "● Daemon running (PID "@ + decimal(pid as nat) + ")"@,
        None => "○ Daemon not running"@,
    }
}

pub fn daemon_status_line(running: Option<u32>) -> (r: String)
    ensures
        r@ == daemon_line(running),
{
    match running {
        Some(pid) => {
            let mut r = String::from_str("● Daemon running (PID ");
            let digits = crate::daemon::pid_file_contents(pid);
            r.append(digits.as_str());
            r.append(")");
            r
        },
        None => String::from_str("○ Daemon not running"),
    }
}

/// The status line of one agent: a check mark when its file exists.
pub open spec fn agent_line_of(name: Seq<char>, present: bool) -> Seq<char> {
    (if present {
        "  ✓ "@
    } else {
        "    "@
    }) + name
}

pub fn agent_line(agent: &AgentInfo) -> (r: String)
    ensures
        r@ == agent_line_of(agent.name@, agent.present),
{
    let mut r = if agent.present {
        String::from_str("  ✓ ")
    } else {
        String::from_str("    ")
    };
    r.append(agent.name);
    r
}

/// The names of the agents whose files exist, in order.
pub open spec fn present_names(agents: Seq<AgentInfo>) -> Seq<Seq<char>>
    decreases agents.len(),
{
    if agents.len() == 0 {
        seq![]
    } else if agents.last().present {
        present_names(agents.drop_last()).push(agents.last().name@)
    } else {
        present_names(agents.drop_last())
    }
}

/// The first run's summary of the agents found: their names, comma separated.
pub open spec fn detected_line(agents: Seq<AgentInfo>) -> Seq<char> {
    "Detected agents: "@ + join_with(present_names(agents), ", "@)
}

pub fn detected_summary(agents: &Vec<AgentInfo>) -> (r: String)
    ensures
        r@ == detected_line(agents@),
{
    let mut names: Vec<String> = Vec::new();
    let mut i: usize = 0;
    assert(agents@.subrange(0, 0) =~= Seq::<AgentInfo>::empty());
    while i < agents.len()
        invariant
            i <= agents@.len(),
            names@.map_values(|p: String| p@) == present_names(agents@.subrange(0, i as int)),
        decreases agents@.len() - i,
    {
        let ghost p = agents@.subrange(0, i + 1);
        assert(p.drop_last() =~= agents@.subrange(0, i as int));
        assert(p.last() == agents@[i as int]);
        if agents[i].present {
            let ghost before = names@;
            names.push(String::from_str(agents[i].name));
            assert(names@.map_values(|p: String| p@) =~= before.map_values(|p: String| p@).push(
                agents@[i as int].name@,
            ));
        }
        i = i + 1;
    }
    assert(agents@.subrange(0, i as int) =~= agents@);
    let mut r = String::from_str("Detected agents: ");
    let list = join_texts(&names, ", ");
    r.append(list.as_str());
    r
}

/// Whether no agent's file exists.
pub fn none_detected(agents: &Vec<AgentInfo>) -> (r: bool)
    ensures
        r == (forall|i: int| 0 <= i < agents@.len() ==> !(#[trigger] agents@[i]).present),
{
    let mut i: usize = 0;
    while i < agents.len()
        invariant
            i <= agents@.len(),
            forall|k: int| 0 <= k < i ==> !(#[trigger] agents@[k]).present,
        decreases agents@.len() - i,
    {
        if agents[i].present {
            return false;
        }
        i = i + 1;
    }
    true
}

} // verus!
