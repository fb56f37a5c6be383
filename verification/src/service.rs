//! Where the service keeps its state, and the name it is registered under.

use vstd::prelude::*;
use vstd::string::*;
use crate::config::opt_text;
use crate::host::{data_local_dir, path_exists};
use crate::text::{join_path, join_with, path_join, split_on};

verus! {

/// The directory that holds the service's state, given the user's local
/// data directory (`/tmp` when there is none).
pub open spec fn state_dir_for(base: Option<Seq<char>>) -> Seq<char> {
    join_path(
        match base {
            Some(b) => b,
            None => "/tmp"@,
        },
        "agents-mcp"@,
    )
}

/// The file whose presence records that the service was installed.
pub open spec fn installed_flag_for(base: Option<Seq<char>>) -> Seq<char> {
    join_path(state_dir_for(base), ".installed"@)
}

/// The state directory under a given local data directory.
pub fn state_dir_in(base: Option<String>) -> (r: String)
    ensures
        r@ == state_dir_for(opt_text(base)),
{
    match base {
        Some(b) => path_join(b.as_str(), "agents-mcp"),
        None => path_join("/tmp", "agents-mcp"),
    }
}

/// The state directory under the user's local data directory (which the
/// platform and the environment decide).
pub fn state_dir() -> (r: String)
    ensures
        exists|b: Option<Seq<char>>| r@ == state_dir_for(b),
{
    let base = data_local_dir();
    let r = state_dir_in(base);
    assert(r@ == state_dir_for(opt_text(base)));
    r
}

/// The file whose presence records that the service was installed.
pub fn installed_flag() -> (r: String)
    ensures
        exists|b: Option<Seq<char>>| r@ == installed_flag_for(b),
{
    let base = data_local_dir();
    let r = installed_flag_in(base);
    assert(r@ == installed_flag_for(opt_text(base)));
    r
}

/// The installed-flag file under a given local data directory.
pub fn installed_flag_in(base: Option<String>) -> (r: String)
    ensures
        r@ == installed_flag_for(opt_text(base)),
{
    let dir = state_dir_in(base);
    path_join(dir.as_str(), ".installed")
}

/// Whether the service was installed: whether its flag file exists (which
/// depends on the disk).
pub fn is_installed() -> bool {
    let flag = installed_flag();
    path_exists(flag.as_str())
}

/// A service label split into its parts.
#[derive(Debug)]
pub struct LabelParts {
    pub qualifier: Option<String>,
    pub organization: Option<String>,
    pub application: String,
}

pub struct LabelView {
    pub qualifier: Option<Seq<char>>,
    pub organization: Option<Seq<char>>,
    pub application: Seq<char>,
}

impl View for LabelParts {
    type V = LabelView;

    open spec fn view(&self) -> LabelView {
        LabelView {
            qualifier: opt_text(self.qualifier),
            organization: opt_text(self.organization),
            application: self.application@,
        }
    }
}

/// How a label `{qualifier}.{organization}.{application}` is read: split
/// at `.`; one piece is the application alone, two are organization and
/// application, and from three on the first two are qualifier and
/// organization and the rest, joined by `.`, the application.
pub open spec fn label_parts_of(s: Seq<char>) -> LabelView {
    let t = split_on(s, '.');
    if t.len() == 1 {
        LabelView { qualifier: None, organization: None, application: t[0] }
    } else if t.len() == 2 {
        LabelView { qualifier: None, organization: Some(t[0]), application: t[1] }
    } else {
        LabelView {
            qualifier: Some(t[0]),
            organization: Some(t[1]),
            application: join_with(t.subrange(2, t.len() as int), "."@),
        }
    }
}

/// The error type of `service_manager`'s fallible calls.
#[verifier::external_type_specification]
#[verifier::external_body]
pub struct ExIoError(std::io::Error);

/// The parts of `s` read as a service label
/// (`<service_manager::ServiceLabel as FromStr>::from_str`). Its source
/// never returns an error, and splits the label at `.` as
/// `label_parts_of` states.
#[verifier::external_body]
fn parse_label(s: &str) -> (r: Result<LabelParts, std::io::Error>)
    ensures
        r is Ok,
        r is Ok ==> r->Ok_0@ == label_parts_of(s@),
{
    s.parse::<service_manager::ServiceLabel>().map(
        |l| LabelParts {
            qualifier: l.qualifier,
            organization: l.organization,
            application: l.application,
        },
    )
}

/// The label the service is registered under: `dev.agents-mcp`, read as a
/// service label.
pub fn label() -> (r: LabelParts)
    ensures
        r@ == label_parts_of("dev.agents-mcp"@),
{
    match parse_label("dev.agents-mcp") {
        Ok(p) => p,
        Err(_) => vstd::pervasive::unreached(),
    }
}

} // verus!
