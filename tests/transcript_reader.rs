use prompt_rewind::error::TrackerError;
use prompt_rewind::text::{split_lines, text_lines};
use prompt_rewind::transcript::{
    count_prompts, extract_prompts_from_jsonl, read_prompt_line, transcript_prompt_texts,
    truncate_session_to_prompt,
};

fn user_line(text: &str) -> String {
    format!(
        r#"{{"type":"user","message":{{"role":"user","content":"{}"}},"timestamp":"2024-01-01T00:00:10Z"}}"#,
        text
    )
}

fn transcript(lines: &[String]) -> String {
    let mut s = String::new();
    for l in lines {
        s.push_str(l);
        s.push('\n');
    }
    s
}

#[test]
fn plain_string_prompt_is_read_with_its_time() {
    let t = transcript(&[user_line("fix the bug")]);
    let ps = extract_prompts_from_jsonl(&t, 99);
    assert_eq!(ps.len(), 1);
    assert_eq!(ps[0].index, 0);
    assert_eq!(ps[0].text, "fix the bug");
    assert_eq!(ps[0].timestamp, 1704067210);
    assert_eq!(ps[0].git_commit_before, "NONE");
    assert!(ps[0].git_commit_after.is_none());
}

#[test]
fn missing_or_bad_timestamp_falls_back_to_now() {
    let t = transcript(&[
        r#"{"type":"user","message":{"content":"a"}}"#.to_string(),
        r#"{"type":"user","message":{"content":"b"},"timestamp":"yesterday"}"#.to_string(),
    ]);
    let ps = extract_prompts_from_jsonl(&t, 42);
    assert_eq!(ps.len(), 2);
    assert_eq!(ps[0].timestamp, 42);
    assert_eq!(ps[1].timestamp, 42);
    assert_eq!(ps[1].index, 1);
}

#[test]
fn text_segments_are_concatenated() {
    let line = r#"{"type":"user","message":{"content":[{"type":"text","text":"hello "},{"type":"image"},{"type":"text","text":"world"}]}}"#;
    let (text, ts) = read_prompt_line(line).unwrap();
    assert_eq!(text, "hello world");
    assert_eq!(ts, None);
}

#[test]
fn tool_result_only_line_is_not_a_prompt() {
    let line = r#"{"type":"user","message":{"content":[{"type":"tool_result","tool_use_id":"x","content":"ok"}]}}"#;
    assert!(read_prompt_line(line).is_none());
    let t = transcript(&[line.to_string(), user_line("real")]);
    assert_eq!(count_prompts(&t), 1);
}

#[test]
fn tool_result_with_text_is_a_prompt() {
    let line = r#"{"type":"user","message":{"content":[{"type":"tool_result","content":"ok"},{"type":"text","text":"and then"}]}}"#;
    assert_eq!(read_prompt_line(line).unwrap().0, "and then");
}

#[test]
fn warmup_marker_is_never_a_prompt() {
    assert!(read_prompt_line(&user_line("Warmup")).is_none());
    let side = r#"{"type":"user","isSidechain":false,"message":{"content":[{"type":"text","text":"Warmup"}]}}"#;
    assert!(read_prompt_line(side).is_none());
    let other = r#"{"type":"assistant","isSidechain":true,"message":{"content":"Warmup"}}"#;
    assert!(read_prompt_line(other).is_none());
}

#[test]
fn skill_banners_are_not_prompts() {
    assert!(read_prompt_line(&user_line("<command-name>/plan</command-name>")).is_none());
    assert!(read_prompt_line(&user_line("Launching skill: pdf")).is_none());
    assert!(read_prompt_line(&user_line("the skill is running")).is_none());
}

#[test]
fn other_lines_are_skipped() {
    let t = transcript(&[
        r#"{"type":"summary","summary":"x"}"#.to_string(),
        r#"{"type":"file-history-snapshot"}"#.to_string(),
        r#"{"type":"assistant","message":{"content":"hi"}}"#.to_string(),
        r#"{"type":"user","isSidechain":true,"message":{"content":"sub"}}"#.to_string(),
        r#"{"type":"user","parent_tool_use_id":"t1","message":{"content":"sub"}}"#.to_string(),
        r#"{"type":"user","parent_tool_use_id":null,"message":{"content":"kept"}}"#.to_string(),
        r#"{"type":"user","message":{"content":"   "}}"#.to_string(),
        r#"{"type":"user","message":{"content":[{"type":"text","text":""}]}}"#.to_string(),
        "not json at all".to_string(),
        String::new(),
    ]);
    let texts = transcript_prompt_texts(&t);
    assert_eq!(texts, vec!["kept".to_string()]);
}

#[test]
fn empty_transcript_has_no_prompts() {
    assert!(extract_prompts_from_jsonl("", 0).is_empty());
    assert_eq!(count_prompts(""), 0);
}

#[test]
fn truncation_keeps_lines_before_the_prompt() {
    let head = r#"{"type":"summary","summary":"s"}"#.to_string();
    let reply = r#"{"type":"assistant","message":{"content":"ok"}}"#.to_string();
    let t = transcript(&[head.clone(), user_line("p0"), reply.clone(), user_line("p1"), reply.clone(), user_line("p2")]);
    let cut = truncate_session_to_prompt(&t, 1).unwrap();
    assert_eq!(cut, transcript(&[head.clone(), user_line("p0"), reply.clone()]));
    assert_eq!(transcript_prompt_texts(&cut), vec!["p0".to_string()]);
    let cut0 = truncate_session_to_prompt(&t, 0).unwrap();
    assert_eq!(cut0, transcript(&[head]));
}

#[test]
fn truncation_at_first_line_empties_the_transcript() {
    let t = transcript(&[user_line("p0"), user_line("p1")]);
    assert_eq!(truncate_session_to_prompt(&t, 0).unwrap(), "");
}

#[test]
fn truncation_of_a_missing_prompt_fails() {
    let t = transcript(&[user_line("p0"), user_line("p1")]);
    assert_eq!(
        truncate_session_to_prompt(&t, 2),
        Err(TrackerError::PromptNotFound { index: 2, found: 2 })
    );
    assert_eq!(
        truncate_session_to_prompt("", 0),
        Err(TrackerError::PromptNotFound { index: 0, found: 0 })
    );
}

#[test]
fn lines_split_on_newlines() {
    assert_eq!(split_lines("a\nb\r\n\nc"), vec!["a", "b\r", "", "c"]);
    assert_eq!(split_lines("a\n"), vec!["a"]);
    assert!(split_lines("").is_empty());
    assert_eq!(text_lines("a\r\nb\r"), vec!["a", "b\r"]);
}
