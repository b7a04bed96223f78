//! Where a session's files lie under the assistant's data directory.
use vstd::prelude::*;

use crate::text::{ends_with, has_prefix, has_suffix, starts_with};

verus! {

/// `<data dir>/projects/<project>`: the directory of a project's sessions.
pub fn project_dir_path(data_dir: &str, project_id: &str) -> (r: String)
    ensures
        r@ == data_dir@ + "/projects/"@ + project_id@,
{
    let mut r = String::from_str(data_dir);
    r.append("/projects/");
    r.append(project_id);
    r
}

/// `<data dir>/projects/<project>/<session>.jsonl`: a session's transcript.
pub fn session_transcript_path(data_dir: &str, session_id: &str, project_id: &str) -> (r:
    String)
    ensures
        r@ == data_dir@ + "/projects/"@ + project_id@ + "/"@ + session_id@ + ".jsonl"@,
{
    let mut r = project_dir_path(data_dir, project_id);
    r.append("/");
    r.append(session_id);
    r.append(".jsonl");
    r
}

/// `<data dir>/projects/<project>/sessions/<session>.git-records.json`: a
/// session's git-record store.
pub fn get_git_records_path(data_dir: &str, session_id: &str, project_id: &str) -> (r:
    String)
    ensures
        r@ == data_dir@ + "/projects/"@ + project_id@ + "/sessions/"@ + session_id@
            + ".git-records.json"@,
{
    let mut r = project_dir_path(data_dir, project_id);
    r.append("/sessions/");
    r.append(session_id);
    r.append(".git-records.json");
    r
}

/// Whether a file of a project's directory is a sub-agent's transcript:
/// `agent-<id>.jsonl`.
pub fn is_agent_transcript_name(file_name: &str) -> (r: bool)
    ensures
        r == (has_prefix(file_name@, "agent-"@) && has_suffix(file_name@, ".jsonl"@)),
{
    starts_with(file_name, "agent-") && ends_with(file_name, ".jsonl")
}

} // verus!
