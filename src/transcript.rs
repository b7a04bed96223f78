//! The transcript reader: which lines of a session's line-delimited log are
//! prompts a user typed, in order, and truncation before one of them.
use vstd::prelude::*;

use crate::error::TrackerError;
use crate::json::{member, member_text, parse_json, parsed_json, str_value, Json};
use crate::text::{
    blank, contains, has_infix, is_blank, join_lines, lemma_lines_of_join, lemma_split_no_newline,
    lines_of, no_newline, occurs_at, same_text, split_lines, strings_view,
};

verus! {

/// A user prompt of the transcript, with the version-control state known
/// for it.
#[derive(Debug)]
pub struct PromptRecord {
    /// Position among the transcript's prompts, from 0.
    pub index: usize,
    /// The prompt's text as recovered from the transcript.
    pub text: String,
    /// Revision before the prompt was sent, or `"NONE"` where none is known.
    pub git_commit_before: String,
    /// Revision after the assistant finished, where known.
    pub git_commit_after: Option<String>,
    /// Seconds since the Unix epoch.
    pub timestamp: i64,
}

/// What `chrono::DateTime::parse_from_rfc3339` followed by `timestamp`
/// gives for a text: seconds since the Unix epoch, `None` where the text is
/// not an RFC 3339 date-time.
pub uninterp spec fn rfc3339_seconds(s: Seq<char>) -> Option<i64>;

/// Relies on `chrono::DateTime::parse_from_rfc3339` and `DateTime::timestamp`.
#[verifier::external_body]
pub fn parse_rfc3339_seconds(s: &str) -> (r: Option<i64>)
    ensures
        r == rfc3339_seconds(s@),
{
    chrono::DateTime::parse_from_rfc3339(s).ok().map(|dt| dt.timestamp())
}

/// Relies on `chrono::Utc::now`: the current time in seconds since the
/// Unix epoch.
#[verifier::external_body]
pub fn current_unix_seconds() -> (r: i64) {
    chrono::Utc::now().timestamp()
}

pub open spec fn is_user_message(m: Json) -> bool {
    str_value(member(m, "type"@)) == Some("user"@)
}

/// Written by a sub-agent rather than the main conversation.
pub open spec fn is_sidechain(m: Json) -> bool {
    member(m, "isSidechain"@) == Some(Json::Bool(true))
}

/// A sub-agent's own prompt: it names the tool call that started it.
pub open spec fn has_parent_tool_use(m: Json) -> bool {
    match member(m, "parent_tool_use_id"@) {
        Some(Json::Null) => false,
        Some(_) => true,
        None => false,
    }
}

pub open spec fn message_content(m: Json) -> Option<Json> {
    match member(m, "message"@) {
        Some(msg) => member(msg, "content"@),
        None => None,
    }
}

pub open spec fn segment_type(item: Json) -> Option<Seq<char>> {
    str_value(member(item, "type"@))
}

/// The text of a `"text"` segment.
pub open spec fn segment_text(item: Json) -> Option<Seq<char>> {
    if segment_type(item) == Some("text"@) {
        str_value(member(item, "text"@))
    } else {
        None
    }
}

/// The texts of a list of segments, concatenated.
pub open spec fn segments_text(items: Seq<Json>) -> Seq<char>
    decreases items.len(),
{
    if items.len() == 0 {
        Seq::empty()
    } else {
        segments_text(items.drop_last()) + match segment_text(items.last()) {
            Some(t) => t,
            None => Seq::empty(),
        }
    }
}

/// The text a message's content carries, where it carries any: a string
/// that is not blank, or segments whose texts are not all empty. Tool
/// results carry no text.
pub open spec fn content_text(c: Option<Json>) -> Option<Seq<char>> {
    match c {
        Some(Json::Str(s)) => if is_blank(s@) {
            None
        } else {
            Some(s@)
        },
        Some(Json::Array(items)) => {
            let t = segments_text(items@);
            if t.len() > 0 {
                Some(t)
            } else {
                None
            }
        },
        _ => None,
    }
}

/// Text that the assistant tool sends by itself: warm-up pings and skill
/// banners.
pub open spec fn is_injected(t: Seq<char>) -> bool {
    has_infix(t, "Warmup"@) || has_infix(t, "<command-name>"@) || has_infix(
        t,
        "Launching skill:"@,
    ) || has_infix(t, "skill is running"@)
}

/// The prompt a parsed transcript line holds, if it is one a user typed.
pub open spec fn message_prompt(m: Json) -> Option<Seq<char>> {
    if !is_user_message(m) || is_sidechain(m) || has_parent_tool_use(m) {
        None
    } else {
        match content_text(message_content(m)) {
            Some(t) => if is_injected(t) {
                None
            } else {
                Some(t)
            },
            None => None,
        }
    }
}

/// The prompt a transcript line holds; a line that is not JSON holds none.
pub open spec fn line_prompt(line: Seq<char>) -> Option<Seq<char>> {
    match parsed_json(line) {
        Some(m) => message_prompt(m),
        None => None,
    }
}

/// The time a transcript line gives, where it gives a valid one.
pub open spec fn line_stamp(line: Seq<char>) -> Option<i64> {
    match parsed_json(line) {
        Some(m) => match str_value(member(m, "timestamp"@)) {
            Some(s) => rfc3339_seconds(s),
            None => None,
        },
        None => None,
    }
}

/// The prompts of a sequence of lines, in order.
pub open spec fn prompt_texts(lines: Seq<Seq<char>>) -> Seq<Seq<char>>
    decreases lines.len(),
{
    if lines.len() == 0 {
        Seq::empty()
    } else {
        let p = prompt_texts(lines.drop_last());
        match line_prompt(lines.last()) {
            Some(t) => p.push(t),
            None => p,
        }
    }
}

/// The times of the prompts of a sequence of lines, in order.
pub open spec fn prompt_stamps(lines: Seq<Seq<char>>) -> Seq<Option<i64>>
    decreases lines.len(),
{
    if lines.len() == 0 {
        Seq::empty()
    } else {
        let p = prompt_stamps(lines.drop_last());
        match line_prompt(lines.last()) {
            Some(t) => p.push(line_stamp(lines.last())),
            None => p,
        }
    }
}

/// The prompts of a transcript text.
pub open spec fn transcript_prompts(t: Seq<char>) -> Seq<Seq<char>> {
    prompt_texts(lines_of(t))
}

/// The prompts of the first `n` lines come first among all prompts.
pub proof fn lemma_prompt_texts_prefix(lines: Seq<Seq<char>>, n: int)
    requires
        0 <= n <= lines.len(),
    ensures
        prompt_texts(lines.take(n)).len() <= prompt_texts(lines).len(),
        prompt_texts(lines.take(n)) == prompt_texts(lines).take(
            prompt_texts(lines.take(n)).len() as int,
        ),
        prompt_stamps(lines).len() == prompt_texts(lines).len(),
        prompt_texts(lines).len() <= lines.len(),
    decreases lines.len(),
{
    if lines.len() > 0 {
        lemma_prompt_texts_prefix(lines.drop_last(), 0);
    }
    if n == lines.len() {
        assert(lines.take(n) == lines);
        assert(prompt_texts(lines).take(prompt_texts(lines).len() as int) == prompt_texts(lines));
    } else {
        let front = lines.drop_last();
        lemma_prompt_texts_prefix(front, n);
        assert(front.take(n) == lines.take(n));
        let p = prompt_texts(front);
        let m = prompt_texts(lines.take(n)).len() as int;
        match line_prompt(lines.last()) {
            Some(t) => {
                assert(p.push(t).take(m) == p.take(m));
            },
            None => {},
        }
    }
}

/// Whether the text is one the assistant tool sends by itself.
pub fn injected(t: &str) -> (r: bool)
    ensures
        r == is_injected(t@),
{
    contains(t, "Warmup") || contains(t, "<command-name>") || contains(t, "Launching skill:")
        || contains(t, "skill is running")
}

fn segment_text_of(item: &Json) -> (r: Option<&String>)
    ensures
        match r {
            Some(t) => segment_text(*item) == Some(t@),
            None => segment_text(*item) is None,
        },
{
    match member_text(item, "type") {
        Some(ty) => if same_text(ty.as_str(), "text") {
            member_text(item, "text")
        } else {
            None
        },
        None => None,
    }
}

/// The text a message's content carries, where it carries any.
pub fn content_text_of(c: &Json) -> (r: Option<String>)
    ensures
        match r {
            Some(t) => content_text(Some(*c)) == Some(t@),
            None => content_text(Some(*c)) is None,
        },
{
    match c {
        Json::Str(s) => if blank(s.as_str()) {
            None
        } else {
            Some(s.clone())
        },
        Json::Array(items) => {
            let mut t = String::new();
            let mut i: usize = 0;
            while i < items.len()
                invariant
                    i <= items@.len(),
                    t@ == segments_text(items@.subrange(0, i as int)),
                decreases items.len() - i,
            {
                assert(items@.subrange(0, i + 1).drop_last() == items@.subrange(0, i as int));
                match segment_text_of(&items[i]) {
                    Some(x) => t.append(x.as_str()),
                    None => {
                        assert(t@ == t@ + Seq::<char>::empty());
                    },
                }
                i = i + 1;
            }
            assert(items@.subrange(0, items@.len() as int) == items@);
            if t.as_str().is_empty() {
                None
            } else {
                Some(t)
            }
        },
        _ => None,
    }
}

/// The prompt a parsed transcript line holds, if it is one a user typed.
pub fn prompt_of_message(m: &Json) -> (r: Option<String>)
    ensures
        match r {
            Some(t) => message_prompt(*m) == Some(t@),
            None => message_prompt(*m) is None,
        },
{
    match member_text(m, "type") {
        Some(ty) => if !same_text(ty.as_str(), "user") {
            return None;
        },
        None => {
            return None;
        },
    }
    match m.get("isSidechain") {
        Some(v) => match v {
            Json::Bool(b) => if *b {
                return None;
            },
            _ => {},
        },
        None => {},
    }
    match m.get("parent_tool_use_id") {
        Some(v) => match v {
            Json::Null => {},
            _ => {
                return None;
            },
        },
        None => {},
    }
    let content = match m.get("message") {
        Some(msg) => msg.get("content"),
        None => None,
    };
    let text = match content {
        Some(c) => content_text_of(c),
        None => None,
    };
    match text {
        Some(t) => if injected(t.as_str()) {
            None
        } else {
            Some(t)
        },
        None => None,
    }
}

/// The prompt a transcript line holds and the time the line gives.
pub fn read_prompt_line(line: &str) -> (r: Option<(String, Option<i64>)>)
    ensures
        match r {
            Some((t, ts)) => line_prompt(line@) == Some(t@) && ts == line_stamp(line@),
            None => line_prompt(line@) is None,
        },
{
    match parse_json(line) {
        Some(m) => match prompt_of_message(&m) {
            Some(t) => {
                let ts = match member_text(&m, "timestamp") {
                    Some(s) => parse_rfc3339_seconds(s.as_str()),
                    None => None,
                };
                Some((t, ts))
            },
            None => None,
        },
        None => None,
    }
}

/// The prompts of a transcript, in order. A prompt whose line gives no
/// valid time is stamped `now`. Prompts are not yet matched with records:
/// each has revision `"NONE"` before it and none after.
pub fn extract_prompts_from_jsonl(transcript: &str, now: i64) -> (r: Vec<PromptRecord>)
    ensures
        r@.len() == transcript_prompts(transcript@).len(),
        forall|i: int|
            0 <= i < r@.len() ==> {
                &&& (#[trigger] r@[i]).index == i
                &&& r@[i].text@ == transcript_prompts(transcript@)[i]
                &&& r@[i].git_commit_before@ == "NONE"@
                &&& r@[i].git_commit_after is None
                &&& r@[i].timestamp == match prompt_stamps(lines_of(transcript@))[i] {
                    Some(t) => t,
                    None => now,
                }
            },
{
    let lines = split_lines(transcript);
    let ghost ls = lines_of(transcript@);
    let mut out: Vec<PromptRecord> = Vec::new();
    let mut i: usize = 0;
    proof {
        lemma_prompt_texts_prefix(ls, 0);
    }
    while i < lines.len()
        invariant
            strings_view(lines@) == ls,
            i <= lines@.len(),
            out@.len() == prompt_texts(ls.take(i as int)).len(),
            prompt_stamps(ls.take(i as int)).len() == out@.len(),
            forall|j: int|
                0 <= j < out@.len() ==> {
                    &&& (#[trigger] out@[j]).index == j
                    &&& out@[j].text@ == prompt_texts(ls.take(i as int))[j]
                    &&& out@[j].git_commit_before@ == "NONE"@
                    &&& out@[j].git_commit_after is None
                    &&& out@[j].timestamp == match prompt_stamps(ls.take(i as int))[j] {
                        Some(t) => t,
                        None => now,
                    }
                },
        decreases lines.len() - i,
    {
        proof {
            lemma_prompt_texts_prefix(ls.take(i + 1), 0);
        }
        assert(ls.take(i + 1).drop_last() == ls.take(i as int));
        assert(ls.take(i + 1).last() == lines@[i as int]@);
        match read_prompt_line(lines[i].as_str()) {
            Some((text, ts)) => {
                let stamp = match ts {
                    Some(t) => t,
                    None => now,
                };
                let n = out.len();
                out.push(
                    PromptRecord {
                        index: n,
                        text,
                        git_commit_before: String::from_str("NONE"),
                        git_commit_after: None,
                        timestamp: stamp,
                    },
                );
            },
            None => {},
        }
        i = i + 1;
    }
    assert(ls.take(lines@.len() as int) == ls);
    out
}

/// The texts of the transcript's prompts, in order.
pub fn transcript_prompt_texts(transcript: &str) -> (r: Vec<String>)
    ensures
        strings_view(r@) == transcript_prompts(transcript@),
{
    let lines = split_lines(transcript);
    let ghost ls = lines_of(transcript@);
    let mut out: Vec<String> = Vec::new();
    let mut i: usize = 0;
    while i < lines.len()
        invariant
            strings_view(lines@) == ls,
            i <= lines@.len(),
            strings_view(out@) == prompt_texts(ls.take(i as int)),
        decreases lines.len() - i,
    {
        assert(ls.take(i + 1).drop_last() == ls.take(i as int));
        assert(ls.take(i + 1).last() == lines@[i as int]@);
        match read_prompt_line(lines[i].as_str()) {
            Some((text, _)) => {
                let ghost prev = out@;
                out.push(text);
                assert(strings_view(out@) == strings_view(prev).push(text@));
            },
            None => {},
        }
        i = i + 1;
    }
    assert(ls.take(lines@.len() as int) == ls);
    out
}

/// How many prompts the transcript holds.
pub fn count_prompts(transcript: &str) -> (r: usize)
    ensures
        r == transcript_prompts(transcript@).len(),
{
    transcript_prompt_texts(transcript).len()
}

/// `cut` is `transcript` cut just before the line of its prompt `k`: the
/// lines before it, each followed by a newline.
pub open spec fn is_cut_before(transcript: Seq<char>, k: int, cut: Seq<char>) -> bool {
    let ls = lines_of(transcript);
    exists|n: int|
        0 <= n < ls.len() && cut == join_lines(ls.take(n)) && line_prompt(ls[n]) is Some
            && prompt_texts(ls.take(n)).len() == k
}

/// The transcript cut just before its prompt `prompt_index`: the lines
/// before that prompt's line, each followed by a newline. Fails, and cuts
/// nothing, where the transcript holds no such prompt.
pub fn truncate_session_to_prompt(transcript: &str, prompt_index: usize) -> (r: Result<
    String,
    TrackerError,
>)
    ensures
        match r {
            Ok(t) => {
                &&& prompt_index < transcript_prompts(transcript@).len()
                &&& transcript_prompts(t@) == transcript_prompts(transcript@).take(
                    prompt_index as int,
                )
                &&& is_cut_before(transcript@, prompt_index as int, t@)
            },
            Err(e) => {
                &&& prompt_index >= transcript_prompts(transcript@).len()
                &&& e == TrackerError::PromptNotFound {
                    index: prompt_index,
                    found: transcript_prompts(transcript@).len() as usize,
                }
            },
        },
{
    let lines = split_lines(transcript);
    let ghost ls = lines_of(transcript@);
    let mut kept = String::new();
    let mut count: usize = 0;
    let mut i: usize = 0;
    proof {
        reveal_strlit("\n");
        lemma_split_no_newline(transcript@);
    }
    while i < lines.len()
        invariant
            strings_view(lines@) == ls,
            ls == lines_of(transcript@),
            i <= lines@.len(),
            count == prompt_texts(ls.take(i as int)).len(),
            count <= prompt_index,
            kept@ == join_lines(ls.take(i as int)),
            "\n"@ == seq!['\n'],
        decreases lines.len() - i,
    {
        proof {
            lemma_prompt_texts_prefix(ls, i + 1);
        }
        assert(ls.take(i + 1).drop_last() == ls.take(i as int));
        assert(ls.take(i + 1).last() == lines@[i as int]@);
        if read_prompt_line(lines[i].as_str()).is_some() {
            if count == prompt_index {
                proof {
                    let front = ls.take(i as int);
                    lemma_split_no_newline(transcript@);
                    assert forall|j: int| 0 <= j < front.len() implies no_newline(
                        #[trigger] front[j],
                    ) by {
                        assert(front[j] == ls[j]);
                        assert(no_newline(lines_of(transcript@)[j]));
                    }
                    lemma_lines_of_join(front);
                    lemma_prompt_texts_prefix(ls, i as int);
                }
                return Ok(kept);
            }
            count = count + 1;
        }
        kept.append(lines[i].as_str());
        kept.append("\n");
        assert(ls.take(i + 1).last() == ls[i as int]);
        i = i + 1;
    }
    assert(ls.take(lines@.len() as int) == ls);
    Err(TrackerError::PromptNotFound { index: prompt_index, found: count })
}

/// The prompts of a transcript are exactly the texts of its qualifying
/// lines, in transcript order, one for each qualifying line.
pub proof fn lemma_prompts_are_qualifying_lines(lines: Seq<Seq<char>>)
    ensures
        prompt_texts(lines) == lines.filter_map(|l: Seq<char>| line_prompt(l)),
        prompt_texts(lines).len() == lines.filter(|l: Seq<char>| line_prompt(l) is Some).len(),
    decreases lines.len(),
{
    reveal(Seq::filter);
    if lines.len() > 0 {
        lemma_prompts_are_qualifying_lines(lines.drop_last());
        match line_prompt(lines.last()) {
            Some(t) => {
                assert(prompt_texts(lines.drop_last()).push(t) == prompt_texts(lines.drop_last())
                    + seq![t]);
            },
            None => {},
        }
    }
}

proof fn lemma_tool_results_carry_no_text(items: Seq<Json>)
    requires
        forall|i: int| 0 <= i < items.len() ==> segment_type(#[trigger] items[i]) == Some(
            "tool_result"@,
        ),
    ensures
        segments_text(items).len() == 0,
    decreases items.len(),
{
    reveal_strlit("tool_result");
    reveal_strlit("text");
    if items.len() > 0 {
        assert(segment_type(items[items.len() - 1]) == Some("tool_result"@));
        assert("tool_result"@.len() != "text"@.len());
        lemma_tool_results_carry_no_text(items.drop_last());
    }
}

/// A message whose content is only tool-result segments is never a prompt.
pub proof fn lemma_tool_result_only_is_not_prompt(m: Json)
    requires
        message_content(m) matches Some(Json::Array(items)) && forall|i: int|
            0 <= i < items@.len() ==> segment_type(#[trigger] items@[i]) == Some(
                "tool_result"@,
            ),
    ensures
        message_prompt(m) is None,
{
    if let Some(Json::Array(items)) = message_content(m) {
        lemma_tool_results_carry_no_text(items@);
    }
}

/// A message whose text is exactly the warm-up marker is never a prompt,
/// whatever its type and side-chain flag.
pub proof fn lemma_warmup_is_not_prompt(m: Json)
    requires
        content_text(message_content(m)) == Some("Warmup"@),
    ensures
        message_prompt(m) is None,
{
    reveal_strlit("Warmup");
    assert("Warmup"@.subrange(0, "Warmup"@.len() as int) == "Warmup"@);
    assert(occurs_at("Warmup"@, "Warmup"@, 0));
    assert(is_injected("Warmup"@));
}

} // verus!
