//! The worker's decisions for one claimed job: where it downloads, what the engine is told,
//! and what follows the engine's exit. The host performs each step and reports back.
use vstd::prelude::*;
use vstd::string::StringExecFns;
use crate::engine::{build_commands, ids_of, parse_ids, script_lines, views};
use crate::queue::Outcome;
use crate::sanitizer::{sanitize_name, sanitized};

verus! {

/// `dir/name`.
pub open spec fn path_join(dir: Seq<char>, name: Seq<char>) -> Seq<char> {
    dir + "/"@ + name
}

/// Where the engine leaves workshop item `content` of application `owner` below `temp`.
pub open spec fn content_path(temp: Seq<char>, owner: Seq<char>, content: Seq<char>) -> Seq<char> {
    path_join(path_join(path_join(temp, "steamapps/workshop/content"@), owner), content)
}

/// The paths and script for one job, laid out below a download root.
#[derive(Debug, Clone, PartialEq, Eq)]
pub struct JobPlan {
    /// The engine's working directory, named after the content id.
    pub temp_dir: String,
    /// The final directory, named after the sanitized display name.
    pub final_dir: String,
    /// For a workshop item, where the engine puts its payload; `None` for an application.
    pub content_dir: Option<String>,
    /// The engine script, one command per line.
    pub commands: Vec<String>,
}

/// How the engine run ended, as the host saw it.
#[derive(Debug, Clone, PartialEq, Eq)]
pub enum EngineReport {
    /// The engine could not be found, extracted or spawned.
    NotStarted(String),
    /// The process exited; `true` for a successful exit status.
    Exited(bool),
    /// The outcome channel closed without a value.
    Crashed,
}

/// What the host does after the engine run.
#[derive(Debug, Clone, PartialEq, Eq)]
pub enum AfterEngine {
    /// Finalize the job with this outcome.
    Finish(Outcome),
    /// Check whether the payload directory exists, then ask `after_content_check`.
    CheckContent(String),
}

/// What the host does once it knows whether the payload exists.
#[derive(Debug, Clone, PartialEq, Eq)]
pub enum AfterCheck {
    /// Move the tree at `from` to `to`, then ask `after_relocation`.
    Relocate { from: String, to: String },
    /// Finalize the job with this outcome.
    Finish(Outcome),
}

/// The plan's fields as plain sequences.
pub open spec fn plan_matches(p: JobPlan, root: Seq<char>, steam_id: Seq<char>, name: Seq<char>) -> bool {
    let ids = ids_of(steam_id);
    let temp = path_join(root, ids.1);
    &&& p.temp_dir@ == temp
    &&& p.final_dir@ == path_join(root, sanitized(name))
    &&& match ids.0 {
        Some(g) => p.content_dir matches Some(c) && c@ == content_path(temp, g, ids.1),
        None => p.content_dir is None,
    }
    &&& views(p.commands@) == script_lines(temp, ids.0, ids.1)
}

fn join(dir: &str, name: &str) -> (r: String)
    ensures
        r@ == path_join(dir@, name@),
{
    String::from_str(dir).concat("/").concat(name)
}

/// Lays out a job below `root`: its working directory from the content id, its final
/// directory from the sanitized name, the payload path for a workshop item, and its script.
pub fn plan_job(root: &str, steam_id: &str, name: &str) -> (r: JobPlan)
    ensures
        plan_matches(r, root@, steam_id@, name@),
{
    let (owner, content) = parse_ids(steam_id);
    let temp_dir = join(root, content.as_str());
    let final_dir = join(root, sanitize_name(name).as_str());
    let content_dir = match &owner {
        Some(g) => {
            let a = join(temp_dir.as_str(), "steamapps/workshop/content");
            let b = join(a.as_str(), g.as_str());
            Some(join(b.as_str(), content.as_str()))
        },
        None => None,
    };
    let commands = match &owner {
        Some(g) => build_commands(temp_dir.as_str(), Some(g.as_str()), content.as_str()),
        None => build_commands(temp_dir.as_str(), None, content.as_str()),
    };
    JobPlan { temp_dir, final_dir, content_dir, commands }
}

/// The step after the engine run: a failed or missing engine fails the job; a successful
/// workshop download goes on to look for its payload; a successful application download is
/// complete in its working directory.
pub fn after_engine(plan: &JobPlan, report: EngineReport) -> (r: AfterEngine)
    ensures
        match report {
            EngineReport::NotStarted(e) => r == AfterEngine::Finish(Outcome::Failed(e)),
            EngineReport::Crashed => r matches AfterEngine::Finish(Outcome::Failed(e)) && e@
                == "Process crashed"@,
            EngineReport::Exited(false) => r matches AfterEngine::Finish(Outcome::Failed(e)) && e@
                == "Download failed"@,
            EngineReport::Exited(true) => match plan.content_dir {
                Some(c) => r matches AfterEngine::CheckContent(d) && d@ == c@,
                None => r matches AfterEngine::Finish(Outcome::Completed(p)) && p@ == plan.temp_dir@,
            },
        },
{
    match report {
        EngineReport::NotStarted(e) => AfterEngine::Finish(Outcome::Failed(e)),
        EngineReport::Crashed => AfterEngine::Finish(Outcome::Failed(String::from_str("Process crashed"))),
        EngineReport::Exited(false) => AfterEngine::Finish(Outcome::Failed(String::from_str("Download failed"))),
        EngineReport::Exited(true) => match &plan.content_dir {
            Some(c) => AfterEngine::CheckContent(c.clone()),
            None => AfterEngine::Finish(Outcome::Completed(plan.temp_dir.clone())),
        },
    }
}

/// The step once the host knows whether the payload directory exists: an existing payload
/// moves to the final directory; otherwise the job is complete in its working directory.
pub fn after_content_check(plan: &JobPlan, exists: bool) -> (r: AfterCheck)
    ensures
        match plan.content_dir {
            Some(c) => if exists {
                r matches AfterCheck::Relocate { from, to } && from@ == c@ && to@ == plan.final_dir@
            } else {
                r matches AfterCheck::Finish(Outcome::Completed(p)) && p@ == plan.temp_dir@
            },
            None => r matches AfterCheck::Finish(Outcome::Completed(p)) && p@ == plan.temp_dir@,
        },
{
    match &plan.content_dir {
        Some(c) => if exists {
            AfterCheck::Relocate { from: c.clone(), to: plan.final_dir.clone() }
        } else {
            AfterCheck::Finish(Outcome::Completed(plan.temp_dir.clone()))
        },
        None => AfterCheck::Finish(Outcome::Completed(plan.temp_dir.clone())),
    }
}

/// The outcome once the payload was moved: complete in the final directory (the host then
/// deletes the working directory), or failed with the move's error although the download
/// itself succeeded.
pub fn after_relocation(plan: &JobPlan, moved: Result<(), String>) -> (r: Outcome)
    ensures
        match moved {
            Ok(_) => r matches Outcome::Completed(p) && p@ == plan.final_dir@,
            Err(e) => r == Outcome::Failed(e),
        },
{
    match moved {
        Ok(_) => Outcome::Completed(plan.final_dir.clone()),
        Err(e) => Outcome::Failed(e),
    }
}

} // verus!
