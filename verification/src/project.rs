//! Finding the project whose configuration is synced.

use vstd::prelude::*;
use vstd::string::*;
use crate::config::texts;
use crate::daemon::source_path;
use crate::host::path_exists;

verus! {

/// No directory holds `.agents/mcp.json`.
#[derive(Debug)]
pub struct ProjectRootError;

pub open spec fn project_root_message() -> Seq<char> {
    "No .agents/mcp.json found in current or parent directories.\nCreate one at the root of your project."@
}

impl ProjectRootError {
    pub fn message(&self) -> (r: String)
        ensures
            r@ == project_root_message(),
    {
        String::from_str(
            "No .agents/mcp.json found in current or parent directories.\nCreate one at the root of your project.",
        )
    }
}

/// The answer at `i`: a missing answer counts as no.
pub open spec fn answer(found: Seq<bool>, i: int) -> bool {
    0 <= i < found.len() && found[i]
}

/// The first candidate from index `i` on whose answer is yes, if any.
pub open spec fn pick_from(candidates: Seq<Seq<char>>, found: Seq<bool>, i: int) -> Option<
    Seq<char>,
>
    decreases candidates.len() - i,
{
    if i < 0 || i >= candidates.len() {
        None
    } else if answer(found, i) {
        Some(candidates[i])
    } else {
        pick_from(candidates, found, i + 1)
    }
}

/// The first candidate whose answer is yes, if any.
pub open spec fn pick_root(candidates: Seq<Seq<char>>, found: Seq<bool>) -> Option<Seq<char>> {
    pick_from(candidates, found, 0)
}

pub open spec fn root_result_view(r: Result<String, ProjectRootError>) -> Option<Seq<char>> {
    match r {
        Ok(d) => Some(d@),
        Err(_) => None,
    }
}

/// The first of `candidates` for which `found` says that it holds
/// `.agents/mcp.json`, or the error when there is none.
pub fn pick_project_root(candidates: &Vec<String>, found: &Vec<bool>) -> (r: Result<
    String,
    ProjectRootError,
>)
    ensures
        root_result_view(r) == pick_root(texts(candidates@), found@),
{
    let ghost cv = texts(candidates@);
    let mut i: usize = 0;
    while i < candidates.len()
        invariant
            cv == texts(candidates@),
            i <= candidates@.len(),
            pick_root(cv, found@) == pick_from(cv, found@, i as int),
        decreases candidates@.len() - i,
    {
        assert(cv[i as int] == candidates@[i as int]@);
        if i < found.len() && found[i] {
            return Ok(candidates[i].clone());
        }
        i = i + 1;
    }
    Err(ProjectRootError)
}

/// The first of `candidates` (the working directory, then each of its
/// parents in turn) that holds `.agents/mcp.json`. The candidates are asked
/// in order, each whether its `.agents/mcp.json` exists, until one says
/// yes; the answers come from the disk, and the result is what
/// `pick_project_root` makes of them.
pub fn find_project_root(candidates: &Vec<String>) -> (r: Result<String, ProjectRootError>)
    ensures
        exists|found: Seq<bool>|
            found.len() <= candidates@.len() && root_result_view(r) == #[trigger] pick_root(
                texts(candidates@),
                found,
            ),
        r matches Ok(d) ==> exists|i: int| 0 <= i < candidates@.len() && d@ == (
        #[trigger] candidates@[i])@,
        candidates@.len() == 0 ==> r is Err,
{
    let mut found: Vec<bool> = Vec::new();
    let mut i: usize = 0;
    while i < candidates.len()
        invariant
            i <= candidates@.len(),
            found@.len() == i,
        decreases candidates@.len() - i,
    {
        let source = source_path(candidates[i].as_str());
        let here = path_exists(source.as_str());
        found.push(here);
        i = i + 1;
        if here {
            break;
        }
    }
    let r = pick_project_root(candidates, &found);
    proof {
        lemma_pick_root_is_candidate(texts(candidates@), found@, 0);
        if r is Ok {
            let d = r->Ok_0;
            let k = choose|k: int| 0 <= k < texts(candidates@).len() && texts(candidates@)[k] == d@;
            assert(d@ == candidates@[k]@);
        }
    }
    r
}

/// What `pick_from` gives is one of the candidates.
pub proof fn lemma_pick_root_is_candidate(candidates: Seq<Seq<char>>, found: Seq<bool>, i: int)
    ensures
        pick_from(candidates, found, i) matches Some(d) ==> exists|k: int|
            0 <= k < candidates.len() && candidates[k] == d,
    decreases candidates.len() - i,
{
    if 0 <= i < candidates.len() && !answer(found, i) {
        lemma_pick_root_is_candidate(candidates, found, i + 1);
    }
}

} // verus!
