//! The version-control adapter's decisions: which git commands to run, with
//! which arguments, and when. Running them is the caller's part.
use vstd::prelude::*;

use crate::text::{trim, trim_text};

verus! {

/// One git invocation the engine needs.
#[derive(Debug, PartialEq, Eq)]
pub enum GitCommand {
    /// Create a repository.
    Init,
    /// Set the committer name the engine commits under.
    ConfigUserName,
    /// Set the committer e-mail the engine commits under.
    ConfigUserEmail,
    /// Create the first, empty commit.
    InitialCommit,
    /// Print the current revision.
    CurrentRevision,
    /// Discard all changes and history back to the revision.
    ResetHard(String),
    /// List uncommitted changes, one per line.
    Status,
    /// Put uncommitted changes, untracked files included, aside under a label.
    StashSave(String),
    /// Stage every change, untracked files included.
    StageAll,
    /// Commit all staged changes with a message.
    CommitAll(String),
}

/// The arguments passed to `git` for a command.
pub open spec fn command_args(c: GitCommand) -> Seq<Seq<char>> {
    match c {
        GitCommand::Init => seq!["init"@],
        GitCommand::ConfigUserName => seq!["config"@, "user.name"@, "Workbench"@],
        GitCommand::ConfigUserEmail => seq!["config"@, "user.email"@, "workbench@localhost"@],
        GitCommand::InitialCommit => seq![
            "commit"@,
            "--allow-empty"@,
            "-m"@,
            "[Workbench] Initial commit"@,
        ],
        GitCommand::CurrentRevision => seq!["rev-parse"@, "HEAD"@],
        GitCommand::ResetHard(rev) => seq!["reset"@, "--hard"@, rev@],
        GitCommand::Status => seq!["status"@, "--porcelain"@],
        GitCommand::StashSave(label) => seq!["stash"@, "save"@, "-u"@, label@],
        GitCommand::StageAll => seq!["add"@, "-A"@],
        GitCommand::CommitAll(message) => seq!["commit"@, "-a"@, "-m"@, message@],
    }
}

/// Commands whose failure does not stop the operation they belong to.
pub open spec fn best_effort(c: GitCommand) -> bool {
    c == GitCommand::ConfigUserName || c == GitCommand::ConfigUserEmail
}

fn texts(parts: &[&str]) -> (r: Vec<String>)
    ensures
        r@.len() == parts@.len(),
        forall|i: int| 0 <= i < parts@.len() ==> (#[trigger] r@[i])@ == parts@[i]@,
{
    let mut out: Vec<String> = Vec::new();
    let mut i: usize = 0;
    while i < parts.len()
        invariant
            i <= parts@.len(),
            out@.len() == i,
            forall|j: int| 0 <= j < i ==> (#[trigger] out@[j])@ == parts@[j]@,
        decreases parts.len() - i,
    {
        out.push(String::from_str(parts[i]));
        i = i + 1;
    }
    out
}

impl GitCommand {
    /// The arguments passed to `git`.
    pub fn args(&self) -> (r: Vec<String>)
        ensures
            r@.map_values(|s: String| s@) == command_args(*self),
    {
        let r = match self {
            GitCommand::Init => texts(&["init"]),
            GitCommand::ConfigUserName => texts(&["config", "user.name", "Workbench"]),
            GitCommand::ConfigUserEmail => texts(&["config", "user.email", "workbench@localhost"]),
            GitCommand::InitialCommit => texts(
                &["commit", "--allow-empty", "-m", "[Workbench] Initial commit"],
            ),
            GitCommand::CurrentRevision => texts(&["rev-parse", "HEAD"]),
            GitCommand::ResetHard(rev) => texts(&["reset", "--hard", rev.as_str()]),
            GitCommand::Status => texts(&["status", "--porcelain"]),
            GitCommand::StashSave(label) => texts(&["stash", "save", "-u", label.as_str()]),
            GitCommand::StageAll => texts(&["add", "-A"]),
            GitCommand::CommitAll(message) => texts(&["commit", "-a", "-m", message.as_str()]),
        };
        assert(r@.map_values(|s: String| s@) =~= command_args(*self));
        r
    }

    /// Whether a failure of the command leaves the operation going.
    pub fn is_best_effort(&self) -> (r: bool)
        ensures
            r == best_effort(*self),
    {
        match self {
            GitCommand::ConfigUserName | GitCommand::ConfigUserEmail => true,
            _ => false,
        }
    }
}

/// The commands that make a working directory a repository with at least
/// one commit, given whether it has a `.git` directory and whether a
/// current revision can be resolved there.
pub open spec fn ensure_steps(has_git_dir: bool, has_commits: bool) -> Seq<GitCommand> {
    if has_git_dir && has_commits {
        Seq::empty()
    } else if has_git_dir {
        seq![GitCommand::ConfigUserName, GitCommand::ConfigUserEmail, GitCommand::InitialCommit]
    } else {
        seq![
            GitCommand::Init,
            GitCommand::ConfigUserName,
            GitCommand::ConfigUserEmail,
            GitCommand::InitialCommit,
        ]
    }
}

/// The commands that make a working directory a repository with at least
/// one commit. Without a `.git` directory there can be no commit, whatever
/// `has_commits` says.
pub fn ensure_git_repo_steps(has_git_dir: bool, has_commits: bool) -> (r: Vec<GitCommand>)
    ensures
        r@ == ensure_steps(has_git_dir, has_commits),
{
    let mut steps: Vec<GitCommand> = Vec::new();
    if has_git_dir && has_commits {
        assert(steps@ =~= ensure_steps(has_git_dir, has_commits));
        return steps;
    }
    if !has_git_dir {
        steps.push(GitCommand::Init);
    }
    steps.push(GitCommand::ConfigUserName);
    steps.push(GitCommand::ConfigUserEmail);
    steps.push(GitCommand::InitialCommit);
    assert(steps@ =~= ensure_steps(has_git_dir, has_commits));
    steps
}

/// Once a repository with a commit is in place, ensuring it again runs no
/// command, so it leaves the current revision as it was. Every plan ends
/// with the initial commit, which makes a revision resolvable.
pub proof fn lemma_ensure_repository_idempotent(has_git_dir: bool, has_commits: bool)
    ensures
        ensure_steps(true, true).len() == 0,
        !(has_git_dir && has_commits) ==> ensure_steps(has_git_dir, has_commits).last()
            == GitCommand::InitialCommit,
{
}

/// The path of a working directory's `.git` entry.
pub fn git_dir_path(project_path: &str) -> (r: String)
    ensures
        r@ == project_path@ + "/.git"@,
{
    let mut r = String::from_str(project_path);
    r.append("/.git");
    r
}

/// Relies on `std::path::Path::exists`: whether something exists at the
/// path at the time of the call.
#[verifier::external_body]
fn path_exists(path: &str) -> (r: bool) {
    std::path::Path::new(path).exists()
}

/// Whether the working directory holds a `.git` entry now.
pub fn is_git_repo(project_path: &str) -> (r: bool) {
    path_exists(git_dir_path(project_path).as_str())
}

/// The revision that `git rev-parse HEAD` printed: its output without the
/// surrounding whitespace and newline.
pub fn revision_from_output(stdout: &str) -> (r: String)
    ensures
        r@ == trim(stdout@),
{
    trim_text(stdout)
}

/// Whether `git status --porcelain` printed any change.
pub fn has_pending_changes(porcelain: &str) -> (r: bool)
    ensures
        r == (porcelain@.len() > 0),
{
    !porcelain.is_empty()
}

} // verus!
