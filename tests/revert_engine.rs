use prompt_rewind::error::TrackerError;
use prompt_rewind::records::{
    calculate_hash, get_git_record, load_git_records, save_git_record, save_git_records,
    GitRecord, GitRecordStore,
};
use prompt_rewind::tracker::{
    capabilities_for, check_rewind_capabilities, complete_record, get_prompt_list,
    get_unified_prompt_list, mark_prompt_completed, record_prompt_at, record_prompt_sent,
    revert_to_prompt, truncate_git_records, RewindMode,
};
use prompt_rewind::transcript::transcript_prompt_texts;

fn user_line(text: &str) -> String {
    format!(r#"{{"type":"user","message":{{"content":"{}"}}}}"#, text)
}

fn reply() -> String {
    r#"{"type":"assistant","message":{"content":"done"}}"#.to_string()
}

fn three_prompts() -> String {
    let mut s = String::new();
    for p in ["first", "second", "third"] {
        s.push_str(&user_line(p));
        s.push('\n');
        s.push_str(&reply());
        s.push('\n');
    }
    s
}

/// Sends and completes each of the three prompts, with revisions c0, c1, c2
/// before them and a0, a1, a2 after.
fn recorded_session() -> (String, GitRecordStore) {
    let full = three_prompts();
    let mut records = GitRecordStore::new();
    let mut seen = String::new();
    for (i, p) in ["first", "second", "third"].iter().enumerate() {
        let n = record_prompt_sent(&mut records, &seen, p, format!("c{}", i));
        assert_eq!(n, i);
        seen.push_str(&user_line(p));
        seen.push('\n');
        seen.push_str(&reply());
        seen.push('\n');
        mark_prompt_completed(&mut records, &seen, i, format!("a{}", i)).unwrap();
    }
    assert_eq!(seen, full);
    (full, records)
}

#[test]
fn hash_is_sha256_hex() {
    assert_eq!(
        calculate_hash("hello"),
        "2cf24dba5fb0a30e26e83b2ac5b9e29e1b161e5c1fa7425e73043362938b9824"
    );
}

#[test]
fn record_then_list_counts_prompts() {
    let t = three_prompts();
    let mut records = GitRecordStore::new();
    let n = record_prompt_sent(&mut records, &t, "fourth", "abc".to_string());
    assert_eq!(n, 3);
    let list = get_prompt_list(&t);
    assert_eq!(list.len(), 3);
    let texts: Vec<&str> = list.iter().map(|p| p.text.as_str()).collect();
    assert_eq!(texts, vec!["first", "second", "third"]);
    let rec = records.get(&calculate_hash("fourth")).unwrap();
    assert_eq!(rec.commit_before, "abc");
    assert!(rec.commit_after.is_none());
}

#[test]
fn recorded_and_completed_prompt_allows_code_revert() {
    let (t, records) = recorded_session();
    let caps = check_rewind_capabilities(&records, &t, 1).unwrap();
    assert!(caps.conversation);
    assert!(caps.code);
    assert!(caps.both);
    assert_eq!(caps.source, "project");
    assert!(caps.warning.is_none());
    let rec = records.get(&calculate_hash("second")).unwrap();
    assert_eq!(rec.commit_before, "c1");
    assert_eq!(rec.commit_after, Some("a1".to_string()));
}

#[test]
fn unrecorded_prompt_is_from_the_command_line() {
    let t = three_prompts();
    let records = GitRecordStore::new();
    let caps = check_rewind_capabilities(&records, &t, 0).unwrap();
    assert!(caps.conversation);
    assert!(!caps.code);
    assert!(!caps.both);
    assert_eq!(caps.source, "cli");
    assert!(caps.warning.is_some());
}

#[test]
fn record_without_usable_revision_allows_conversation_only() {
    for before in ["", "NONE"] {
        let caps = capabilities_for(Some(GitRecord {
            commit_before: before.to_string(),
            commit_after: None,
            timestamp: 0,
        }));
        assert!(caps.conversation);
        assert!(!caps.code);
        assert!(!caps.both);
        assert_eq!(caps.source, "project");
        assert!(caps.warning.is_some());
    }
}

#[test]
fn capabilities_of_a_missing_prompt_fail() {
    let t = three_prompts();
    let records = GitRecordStore::new();
    assert_eq!(
        check_rewind_capabilities(&records, &t, 3).unwrap_err(),
        TrackerError::PromptNotFound { index: 3, found: 3 }
    );
}

#[test]
fn completing_an_unrecorded_prompt_changes_nothing() {
    let t = three_prompts();
    let mut records = GitRecordStore::new();
    record_prompt_at(&mut records, "other", "x".to_string(), 5);
    mark_prompt_completed(&mut records, &t, 0, "after".to_string()).unwrap();
    assert!(records.get(&calculate_hash("first")).is_none());
    let other = records.get(&calculate_hash("other")).unwrap();
    assert_eq!(other.commit_after, None);
    assert_eq!(other.timestamp, 5);
    assert_eq!(
        mark_prompt_completed(&mut records, &t, 7, "after".to_string()),
        Err(TrackerError::PromptNotFound { index: 7, found: 3 })
    );
}

#[test]
fn conversation_revert_cuts_transcript_and_records() {
    let (t, records) = recorded_session();
    let plan = revert_to_prompt(&records, &t, 1, RewindMode::ConversationOnly).unwrap();
    assert_eq!(plan.prompt_text, "second");
    assert!(plan.reset_to.is_none());
    assert!(!plan.remove_agent_files);
    let cut = plan.transcript.unwrap();
    assert_eq!(transcript_prompt_texts(&cut), vec!["first".to_string()]);
    let kept = plan.records.unwrap();
    assert!(kept.contains(&calculate_hash("first")));
    assert!(!kept.contains(&calculate_hash("second")));
    assert!(!kept.contains(&calculate_hash("third")));
}

#[test]
fn conversation_revert_of_a_command_line_prompt_is_allowed() {
    let t = three_prompts();
    let records = GitRecordStore::new();
    let plan = revert_to_prompt(&records, &t, 0, RewindMode::ConversationOnly).unwrap();
    assert_eq!(plan.transcript.unwrap(), "");
    assert!(plan.remove_agent_files);
}

#[test]
fn code_revert_resets_to_commit_before_and_keeps_transcript() {
    let (t, records) = recorded_session();
    let plan = revert_to_prompt(&records, &t, 2, RewindMode::CodeOnly).unwrap();
    assert_eq!(plan.reset_to, Some("c2".to_string()));
    assert!(plan.transcript.is_none());
    assert!(plan.records.is_none());
    assert!(!plan.remove_agent_files);
    assert_eq!(plan.prompt_text, "third");
}

#[test]
fn full_revert_to_second_of_three_prompts() {
    let (t, records) = recorded_session();
    let plan = revert_to_prompt(&records, &t, 1, RewindMode::Both).unwrap();
    assert_eq!(plan.reset_to, Some("c1".to_string()));
    let cut = plan.transcript.unwrap();
    assert_eq!(transcript_prompt_texts(&cut), vec!["first".to_string()]);
    let kept = plan.records.unwrap();
    assert!(kept.get(&calculate_hash("second")).is_none());
    assert!(kept.get(&calculate_hash("third")).is_none());
    let first = kept.get(&calculate_hash("first")).unwrap();
    assert_eq!(first.commit_before, "c0");
    assert_eq!(first.commit_after, Some("a0".to_string()));
}

#[test]
fn code_revert_without_record_fails_before_planning() {
    let t = three_prompts();
    let records = GitRecordStore::new();
    assert_eq!(
        revert_to_prompt(&records, &t, 1, RewindMode::CodeOnly).unwrap_err(),
        TrackerError::NoGitRecord { index: 1 }
    );
    assert_eq!(
        revert_to_prompt(&records, &t, 1, RewindMode::Both).unwrap_err(),
        TrackerError::NoGitRecord { index: 1 }
    );
    assert_eq!(
        revert_to_prompt(&records, &t, 4, RewindMode::ConversationOnly).unwrap_err(),
        TrackerError::PromptNotFound { index: 4, found: 3 }
    );
}

#[test]
fn unified_list_merges_records() {
    let t = three_prompts();
    let mut records = GitRecordStore::new();
    record_prompt_at(&mut records, "second", "b".to_string(), 1);
    complete_record(&mut records, &calculate_hash("second"), "b2".to_string());
    let list = get_unified_prompt_list(&records, &t);
    assert_eq!(list.len(), 3);
    assert_eq!(list[0].git_commit_before, "NONE");
    assert_eq!(list[1].git_commit_before, "b");
    assert_eq!(list[1].git_commit_after, Some("b2".to_string()));
    assert_eq!(list[2].git_commit_after, None);
}

#[test]
fn store_round_trips_through_its_file() {
    let mut records = GitRecordStore::new();
    save_git_record(
        &mut records,
        "k1".to_string(),
        GitRecord { commit_before: "c".to_string(), commit_after: Some("d".to_string()), timestamp: 17 },
    );
    save_git_record(
        &mut records,
        "k2".to_string(),
        GitRecord { commit_before: "e".to_string(), commit_after: None, timestamp: -3 },
    );
    let text = save_git_records(&records);
    assert!(text.contains("\"commitBefore\""));
    let back = load_git_records(Some(&text)).unwrap();
    let r1 = get_git_record(&back, "k1").unwrap();
    assert_eq!(r1.commit_after, Some("d".to_string()));
    assert_eq!(r1.timestamp, 17);
    let r2 = get_git_record(&back, "k2").unwrap();
    assert_eq!(r2.commit_before, "e");
    assert_eq!(r2.commit_after, None);
    assert!(get_git_record(&back, "k3").is_none());
}

#[test]
fn missing_store_is_empty_and_corrupt_store_fails() {
    assert!(load_git_records(None).unwrap().get("x").is_none());
    assert_eq!(load_git_records(Some("{not json")).unwrap_err(), TrackerError::MalformedRecords);
    assert_eq!(load_git_records(Some("[1,2]")).unwrap_err(), TrackerError::MalformedRecords);
    assert_eq!(
        load_git_records(Some(r#"{"k":{"commitBefore":"a"}}"#)).unwrap_err(),
        TrackerError::MalformedRecords
    );
    let ok = load_git_records(Some(r#"{"k":{"commitBefore":"a","timestamp":5}}"#)).unwrap();
    assert_eq!(ok.get("k").unwrap().commit_after, None);
}

#[test]
fn truncating_records_drops_later_prompts_only() {
    let mut records = GitRecordStore::new();
    for p in ["a", "b", "c"] {
        record_prompt_at(&mut records, p, p.to_string(), 0);
    }
    let prompts = vec!["a".to_string(), "b".to_string(), "c".to_string()];
    truncate_git_records(&mut records, &prompts, 1);
    assert!(records.contains(&calculate_hash("a")));
    assert!(!records.contains(&calculate_hash("b")));
    assert!(!records.contains(&calculate_hash("c")));
    truncate_git_records(&mut records, &prompts, 9);
    assert!(records.contains(&calculate_hash("a")));
}
