use prompt_rewind::extensions::{
    agent_name_from_file_name, parse_description_from_content, skill_from_file,
    skill_name_from_file_name, subagent_from_file,
};
use prompt_rewind::git::{
    ensure_git_repo_steps, git_dir_path, has_pending_changes, is_git_repo, revision_from_output,
    GitCommand,
};
use prompt_rewind::text::trim_text;
use prompt_rewind::layout::{
    get_git_records_path, is_agent_transcript_name, project_dir_path, session_transcript_path,
};

#[test]
fn description_from_front_matter() {
    let c = "---\nname: x\ndescription:  Plans work \n---\nBody";
    assert_eq!(parse_description_from_content(c), Some("Plans work".to_string()));
    let crlf = "---\r\ndescription: windows\r\n---\r\n";
    assert_eq!(parse_description_from_content(crlf), Some("windows".to_string()));
}

#[test]
fn description_falls_back_to_first_plain_line() {
    assert_eq!(
        parse_description_from_content("# Title\n\n  first words  \nmore"),
        Some("first words".to_string())
    );
    assert_eq!(
        parse_description_from_content("---\nname: x\n---\nbody"),
        Some("---".to_string())
    );
    assert_eq!(parse_description_from_content("# only\n   \n"), None);
    assert_eq!(parse_description_from_content(""), None);
}

#[test]
fn description_prefix_is_stripped_repeatedly() {
    let c = "---\ndescription:description: twice\n---\n";
    assert_eq!(parse_description_from_content(c), Some("twice".to_string()));
}

#[test]
fn names_from_file_names() {
    assert_eq!(agent_name_from_file_name("planner.md"), Some("planner".to_string()));
    assert_eq!(agent_name_from_file_name(".md"), None);
    assert_eq!(agent_name_from_file_name("notes.txt"), None);
    assert_eq!(skill_name_from_file_name("SKILL.md"), Some(String::new()));
    assert_eq!(skill_name_from_file_name("pdf.SKILL.md"), Some("pdf".to_string()));
    assert_eq!(skill_name_from_file_name("README.md"), None);
}

#[test]
fn files_become_agents_and_skills() {
    let a = subagent_from_file("r.md", "/p/r.md".to_string(), "user", "plain".to_string()).unwrap();
    assert_eq!(a.name, "r");
    assert_eq!(a.scope, "user");
    assert_eq!(a.description, Some("plain".to_string()));
    assert!(subagent_from_file("r.txt", String::new(), "user", String::new()).is_none());
    let s = skill_from_file("SKILL.md", "/p/SKILL.md".to_string(), "project", String::new()).unwrap();
    assert_eq!(s.name, "");
    assert_eq!(s.description, None);
}

#[test]
fn trimming_uses_unicode_whitespace() {
    assert_eq!(trim_text("\u{3000} a b\t\n"), "a b");
    assert_eq!(trim_text("   "), "");
}

#[test]
fn ensure_plan_depends_on_repository_state() {
    assert!(ensure_git_repo_steps(true, true).is_empty());
    assert_eq!(
        ensure_git_repo_steps(true, false),
        vec![GitCommand::ConfigUserName, GitCommand::ConfigUserEmail, GitCommand::InitialCommit]
    );
    let fresh = ensure_git_repo_steps(false, false);
    assert_eq!(fresh.len(), 4);
    assert_eq!(fresh[0], GitCommand::Init);
    assert!(fresh[1].is_best_effort());
    assert!(!fresh[3].is_best_effort());
}

#[test]
fn git_arguments() {
    assert_eq!(GitCommand::ResetHard("abc".to_string()).args(), vec!["reset", "--hard", "abc"]);
    assert_eq!(
        GitCommand::StashSave("m".to_string()).args(),
        vec!["stash", "save", "-u", "m"]
    );
    assert_eq!(GitCommand::CurrentRevision.args(), vec!["rev-parse", "HEAD"]);
    assert_eq!(
        GitCommand::InitialCommit.args(),
        vec!["commit", "--allow-empty", "-m", "[Workbench] Initial commit"]
    );
}

#[test]
fn repository_checks() {
    assert_eq!(git_dir_path("/w"), "/w/.git");
    assert!(!is_git_repo("/no/such/dir/for/this/test"));
    assert!(has_pending_changes(" M a.rs\n"));
    assert!(!has_pending_changes(""));
}

#[test]
fn session_file_paths() {
    assert_eq!(project_dir_path("/d", "p"), "/d/projects/p");
    assert_eq!(session_transcript_path("/d", "s", "p"), "/d/projects/p/s.jsonl");
    assert_eq!(get_git_records_path("/d", "s", "p"), "/d/projects/p/sessions/s.git-records.json");
    assert!(is_agent_transcript_name("agent-12.jsonl"));
    assert!(!is_agent_transcript_name("agent-12.json"));
    assert!(!is_agent_transcript_name("s.jsonl"));
}

#[test]
fn revision_is_the_trimmed_output() {
    assert_eq!(revision_from_output("0123abcd\n"), "0123abcd");
    assert_eq!(revision_from_output("  \n"), "");
}
