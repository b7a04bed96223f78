//! The checkpoint and revert engine: records the revision around each
//! prompt, reports which reverts a prompt allows, and plans a revert of the
//! conversation, the code, or both.
use vstd::prelude::*;

use crate::error::TrackerError;
use crate::records::{calculate_hash, lookup, sha256_hex, GitRecord, GitRecordStore};
use crate::text::{lines_of, same_text, strings_view};
use crate::transcript::{
    count_prompts, current_unix_seconds, extract_prompts_from_jsonl, is_cut_before,
    prompt_stamps, transcript_prompt_texts, transcript_prompts, truncate_session_to_prompt,
    PromptRecord,
};

verus! {

/// Which stores a revert changes.
#[derive(Debug, Clone, Copy, PartialEq, Eq, Structural)]
pub enum RewindMode {
    /// Delete the messages from the prompt on; keep the code.
    ConversationOnly,
    /// Put the code back as it was before the prompt; keep the messages.
    CodeOnly,
    /// Both of the above.
    Both,
}

/// Which reverts a prompt allows.
#[derive(Debug)]
pub struct RewindCapabilities {
    /// Reverting the conversation: always possible.
    pub conversation: bool,
    /// Reverting the code: possible where a revision before the prompt is known.
    pub code: bool,
    /// Reverting both: as for the code.
    pub both: bool,
    /// Why the code cannot be reverted, where it cannot.
    pub warning: Option<String>,
    /// `"project"` for a prompt sent through the application, `"cli"` for
    /// one sent from the command line.
    pub source: String,
}

/// A revision that a revert can go back to: not empty and not the
/// placeholder `"NONE"`.
pub open spec fn usable_commit(c: Seq<char>) -> bool {
    c.len() > 0 && c != "NONE"@
}

/// `c` describes what the prompt whose record is `rec` allows.
pub open spec fn capabilities_match(c: RewindCapabilities, rec: Option<GitRecord>) -> bool {
    &&& c.conversation
    &&& match rec {
        Some(r) => {
            &&& c.code == usable_commit(r.commit_before@)
            &&& c.both == usable_commit(r.commit_before@)
            &&& c.source@ == "project"@
            &&& if usable_commit(r.commit_before@) {
                c.warning is None
            } else {
                c.warning matches Some(w) && w@
                    == "This prompt has no git record: its messages can be deleted, but its code cannot be reverted"@
            }
        },
        None => {
            &&& !c.code
            &&& !c.both
            &&& c.source@ == "cli"@
            &&& c.warning matches Some(w) && w@
                == "This prompt came from the command line: its messages can be deleted, but its code cannot be reverted"@
        },
    }
}

/// The records once `text` is sent with `commit_before` at `timestamp`.
pub open spec fn submitted(
    m: Map<Seq<char>, GitRecord>,
    text: Seq<char>,
    commit_before: String,
    timestamp: i64,
) -> Map<Seq<char>, GitRecord> {
    m.insert(
        sha256_hex(text),
        GitRecord { commit_before: commit_before, commit_after: None, timestamp: timestamp },
    )
}

/// The records once the prompt whose key is `key` is finished at
/// `commit_after`; unchanged where it has no record.
pub open spec fn completed(
    m: Map<Seq<char>, GitRecord>,
    key: Seq<char>,
    commit_after: String,
) -> Map<Seq<char>, GitRecord> {
    if m.contains_key(key) {
        m.insert(
            key,
            GitRecord {
                commit_before: m[key].commit_before,
                commit_after: Some(commit_after),
                timestamp: m[key].timestamp,
            },
        )
    } else {
        m
    }
}

/// The keys of the prompts from position `k` on.
pub open spec fn keys_from(prompts: Seq<Seq<char>>, k: int) -> Set<Seq<char>> {
    Set::new(|h: Seq<char>| exists|j: int| k <= j < prompts.len() && h == sha256_hex(prompts[j]))
}

/// What the capabilities of a prompt are, given its record.
pub fn capabilities_for(record: Option<GitRecord>) -> (r: RewindCapabilities)
    ensures
        capabilities_match(r, record),
{
    match record {
        Some(rec) => {
            let usable = !rec.commit_before.as_str().is_empty() && !same_text(
                rec.commit_before.as_str(),
                "NONE",
            );
            RewindCapabilities {
                conversation: true,
                code: usable,
                both: usable,
                warning: if usable {
                    None
                } else {
                    Some(
                        String::from_str(
                            "This prompt has no git record: its messages can be deleted, but its code cannot be reverted",
                        ),
                    )
                },
                source: String::from_str("project"),
            }
        },
        None => RewindCapabilities {
            conversation: true,
            code: false,
            both: false,
            warning: Some(
                String::from_str(
                    "This prompt came from the command line: its messages can be deleted, but its code cannot be reverted",
                ),
            ),
            source: String::from_str("cli"),
        },
    }
}

/// The text of the transcript's prompt `prompt_index`.
pub fn prompt_at(transcript: &str, prompt_index: usize) -> (r: Result<String, TrackerError>)
    ensures
        match r {
            Ok(t) => prompt_index < transcript_prompts(transcript@).len() && t@
                == transcript_prompts(transcript@)[prompt_index as int],
            Err(e) => prompt_index >= transcript_prompts(transcript@).len()
                && e == TrackerError::PromptNotFound {
                index: prompt_index,
                found: transcript_prompts(transcript@).len() as usize,
            },
        },
{
    let mut texts = transcript_prompt_texts(transcript);
    if prompt_index < texts.len() {
        assert(texts@[prompt_index as int]@ == strings_view(texts@)[prompt_index as int]);
        Ok(texts.swap_remove(prompt_index))
    } else {
        Err(TrackerError::PromptNotFound { index: prompt_index, found: texts.len() })
    }
}

/// Which reverts the transcript's prompt `prompt_index` allows, going by
/// the record kept under the hash of its text.
pub fn check_rewind_capabilities(
    records: &GitRecordStore,
    transcript: &str,
    prompt_index: usize,
) -> (r: Result<RewindCapabilities, TrackerError>)
    ensures
        match r {
            Ok(c) => prompt_index < transcript_prompts(transcript@).len() && capabilities_match(
                c,
                lookup(records@, sha256_hex(transcript_prompts(transcript@)[prompt_index as int])),
            ),
            Err(e) => prompt_index >= transcript_prompts(transcript@).len()
                && e == TrackerError::PromptNotFound {
                index: prompt_index,
                found: transcript_prompts(transcript@).len() as usize,
            },
        },
{
    let text = prompt_at(transcript, prompt_index)?;
    let hash = calculate_hash(text.as_str());
    Ok(capabilities_for(records.get(hash.as_str())))
}

/// Keeps, under the hash of `prompt_text`, a record with `commit_before`
/// and `timestamp` and no revision after.
pub fn record_prompt_at(
    records: &mut GitRecordStore,
    prompt_text: &str,
    commit_before: String,
    timestamp: i64,
)
    ensures
        final(records)@ == submitted(old(records)@, prompt_text@, commit_before, timestamp),
{
    let hash = calculate_hash(prompt_text);
    records.insert(
        hash,
        GitRecord { commit_before: commit_before, commit_after: None, timestamp: timestamp },
    );
}

/// Records a prompt as it is sent, stamped with the current time, and
/// returns how many prompts the transcript holds: the position the new
/// prompt will take.
pub fn record_prompt_sent(
    records: &mut GitRecordStore,
    transcript: &str,
    prompt_text: &str,
    commit_before: String,
) -> (r: usize)
    ensures
        r == transcript_prompts(transcript@).len(),
        exists|ts: i64| final(records)@ == submitted(old(records)@, prompt_text@, commit_before, ts),
{
    let now = current_unix_seconds();
    record_prompt_at(records, prompt_text, commit_before, now);
    count_prompts(transcript)
}

/// Sets the revision after the prompt in the record kept under `hash`;
/// changes nothing where there is no such record.
pub fn complete_record(records: &mut GitRecordStore, hash: &str, commit_after: String)
    ensures
        final(records)@ == completed(old(records)@, hash@, commit_after),
{
    match records.get(hash) {
        Some(rec) => {
            let updated = GitRecord {
                commit_before: rec.commit_before,
                commit_after: Some(commit_after),
                timestamp: rec.timestamp,
            };
            records.insert(String::from_str(hash), updated);
        },
        None => {},
    }
}

/// Records the revision after the transcript's prompt `prompt_index`, in
/// the record kept under the hash of its text. A prompt without a record
/// (sent from the command line) is left as it is.
pub fn mark_prompt_completed(
    records: &mut GitRecordStore,
    transcript: &str,
    prompt_index: usize,
    commit_after: String,
) -> (r: Result<(), TrackerError>)
    ensures
        match r {
            Ok(()) => prompt_index < transcript_prompts(transcript@).len() && final(records)@
                == completed(
                old(records)@,
                sha256_hex(transcript_prompts(transcript@)[prompt_index as int]),
                commit_after,
            ),
            Err(e) => prompt_index >= transcript_prompts(transcript@).len() && final(records)@
                == old(records)@ && e == TrackerError::PromptNotFound {
                index: prompt_index,
                found: transcript_prompts(transcript@).len() as usize,
            },
        },
{
    let text = prompt_at(transcript, prompt_index)?;
    let hash = calculate_hash(text.as_str());
    complete_record(records, hash.as_str(), commit_after);
    Ok(())
}

/// The keys of the prompts at positions `from` up to, not including, `to`.
pub open spec fn keys_between(prompts: Seq<Seq<char>>, from: int, to: int) -> Set<Seq<char>> {
    Set::new(|h: Seq<char>| exists|j: int| from <= j < to && h == sha256_hex(prompts[j]))
}

/// Drops the records of the prompts from position `prompt_index` on.
pub fn truncate_git_records(records: &mut GitRecordStore, prompts: &Vec<String>, prompt_index: usize)
    ensures
        final(records)@ == old(records)@.remove_keys(
            keys_from(strings_view(prompts@), prompt_index as int),
        ),
{
    let ghost ps = strings_view(prompts@);
    let start = if prompt_index < prompts.len() {
        prompt_index
    } else {
        prompts.len()
    };
    let mut i: usize = start;
    assert(old(records)@.remove_keys(keys_between(ps, start as int, start as int))
        =~= old(records)@);
    while i < prompts.len()
        invariant
            ps == strings_view(prompts@),
            start <= i <= prompts@.len(),
            records@ == old(records)@.remove_keys(keys_between(ps, start as int, i as int)),
        decreases prompts.len() - i,
    {
        let hash = calculate_hash(prompts[i].as_str());
        records.remove(hash.as_str());
        assert(ps[i as int] == prompts@[i as int]@);
        let ghost done = keys_between(ps, start as int, i as int);
        let ghost next = keys_between(ps, start as int, i + 1);
        assert(next =~= done.insert(hash@)) by {
            assert forall|h: Seq<char>| next.contains(h) implies done.insert(hash@).contains(h) by {
                let j = choose|j: int| start <= j < i + 1 && h == sha256_hex(ps[j]);
                if j < i {
                    assert(done.contains(h));
                }
            }
        }
        assert(records@ =~= old(records)@.remove_keys(next));
        i = i + 1;
    }
    assert(keys_from(ps, prompt_index as int) =~= keys_between(ps, start as int, i as int));
}

/// What a revert does, worked out before anything is changed: the caller
/// resets the working directory first, then writes the transcript and the
/// records.
#[derive(Debug)]
pub struct RevertPlan {
    /// The prompt's text, to put back in the input box.
    pub prompt_text: String,
    /// The revision to reset the working directory to, after stashing any
    /// uncommitted changes.
    pub reset_to: Option<String>,
    /// The new text of the transcript.
    pub transcript: Option<String>,
    /// The new records.
    pub records: Option<GitRecordStore>,
    /// Whether to delete the session's sub-agent transcripts.
    pub remove_agent_files: bool,
}

/// Plans the revert of a session to just before its prompt `prompt_index`.
/// `CodeOnly` and `Both` need the prompt's git record, and fail without it
/// before anything is planned. A plan that touches the conversation cuts
/// the transcript before the prompt and drops the records of the prompt and
/// all later ones.
pub fn revert_to_prompt(
    records: &GitRecordStore,
    transcript: &str,
    prompt_index: usize,
    mode: RewindMode,
) -> (r: Result<RevertPlan, TrackerError>)
    ensures
        ({
            let ps = transcript_prompts(transcript@);
            let k = prompt_index as int;
            match r {
                Ok(plan) => {
                    let h = sha256_hex(ps[k]);
                    &&& k < ps.len()
                    &&& plan.prompt_text@ == ps[k]
                    &&& mode != RewindMode::ConversationOnly ==> records@.contains_key(h)
                    &&& plan.reset_to == if mode == RewindMode::ConversationOnly {
                        None
                    } else {
                        Some(records@[h].commit_before)
                    }
                    &&& if mode == RewindMode::CodeOnly {
                        &&& plan.transcript is None
                        &&& plan.records is None
                        &&& !plan.remove_agent_files
                    } else {
                        &&& plan.transcript matches Some(t) && is_cut_before(transcript@, k, t@)
                            && transcript_prompts(t@) == ps.take(k)
                        &&& plan.records matches Some(s) && s@ == records@.remove_keys(
                            keys_from(ps, k),
                        )
                        &&& plan.remove_agent_files == (k == 0)
                    }
                },
                Err(e) => if k >= ps.len() {
                    e == TrackerError::PromptNotFound { index: prompt_index, found: ps.len() as usize }
                } else {
                    &&& mode != RewindMode::ConversationOnly
                    &&& !records@.contains_key(sha256_hex(ps[k]))
                    &&& e == TrackerError::NoGitRecord { index: prompt_index }
                },
            }
        }),
{
    let texts = transcript_prompt_texts(transcript);
    if prompt_index >= texts.len() {
        return Err(TrackerError::PromptNotFound { index: prompt_index, found: texts.len() });
    }
    let text = texts[prompt_index].clone();
    assert(text@ == strings_view(texts@)[prompt_index as int]);
    let hash = calculate_hash(text.as_str());
    let record = records.get(hash.as_str());
    let reset_to = match mode {
        RewindMode::ConversationOnly => None,
        _ => match record {
            Some(rec) => Some(rec.commit_before),
            None => {
                return Err(TrackerError::NoGitRecord { index: prompt_index });
            },
        },
    };
    if mode == RewindMode::CodeOnly {
        return Ok(
            RevertPlan {
                prompt_text: text,
                reset_to,
                transcript: None,
                records: None,
                remove_agent_files: false,
            },
        );
    }
    let cut = match truncate_session_to_prompt(transcript, prompt_index) {
        Ok(t) => t,
        Err(e) => {
            return Err(e);
        },
    };
    let mut kept = records.duplicate();
    truncate_git_records(&mut kept, &texts, prompt_index);
    Ok(
        RevertPlan {
            prompt_text: text,
            reset_to,
            transcript: Some(cut),
            records: Some(kept),
            remove_agent_files: prompt_index == 0,
        },
    )
}

/// The prompts of a transcript, with the time of each, for a transcript
/// read now.
pub fn get_prompt_list(transcript: &str) -> (r: Vec<PromptRecord>)
    ensures
        r@.len() == transcript_prompts(transcript@).len(),
        forall|i: int|
            0 <= i < r@.len() ==> {
                &&& (#[trigger] r@[i]).index == i
                &&& r@[i].text@ == transcript_prompts(transcript@)[i]
                &&& r@[i].git_commit_before@ == "NONE"@
                &&& r@[i].git_commit_after is None
                &&& prompt_stamps(lines_of(transcript@))[i] matches Some(t) ==> r@[i].timestamp
                    == t
            },
{
    let now = current_unix_seconds();
    extract_prompts_from_jsonl(transcript, now)
}

/// A prompt with the revisions of its record, or `"NONE"` and none where
/// it has no record.
pub fn with_record(p: &PromptRecord, record: Option<GitRecord>) -> (r: PromptRecord)
    ensures
        r.index == p.index,
        r.text == p.text,
        r.timestamp == p.timestamp,
        match record {
            Some(rec) => r.git_commit_before == rec.commit_before && r.git_commit_after
                == rec.commit_after,
            None => r.git_commit_before@ == "NONE"@ && r.git_commit_after is None,
        },
{
    match record {
        Some(rec) => PromptRecord {
            index: p.index,
            text: p.text.clone(),
            git_commit_before: rec.commit_before,
            git_commit_after: rec.commit_after,
            timestamp: p.timestamp,
        },
        None => PromptRecord {
            index: p.index,
            text: p.text.clone(),
            git_commit_before: String::from_str("NONE"),
            git_commit_after: None,
            timestamp: p.timestamp,
        },
    }
}

/// The prompts of a transcript, each with the revisions of the record
/// kept under the hash of its text.
pub fn get_unified_prompt_list(records: &GitRecordStore, transcript: &str) -> (r: Vec<
    PromptRecord,
>)
    ensures
        r@.len() == transcript_prompts(transcript@).len(),
        forall|i: int|
            0 <= i < r@.len() ==> {
                &&& (#[trigger] r@[i]).index == i
                &&& r@[i].text@ == transcript_prompts(transcript@)[i]
                &&& match lookup(records@, sha256_hex(transcript_prompts(transcript@)[i])) {
                    Some(rec) => r@[i].git_commit_before == rec.commit_before
                        && r@[i].git_commit_after == rec.commit_after,
                    None => r@[i].git_commit_before@ == "NONE"@ && r@[i].git_commit_after is None,
                }
                &&& prompt_stamps(lines_of(transcript@))[i] matches Some(t) ==> r@[i].timestamp
                    == t
            },
{
    let prompts = get_prompt_list(transcript);
    let mut out: Vec<PromptRecord> = Vec::new();
    let mut i: usize = 0;
    while i < prompts.len()
        invariant
            i <= prompts@.len(),
            prompts@.len() == transcript_prompts(transcript@).len(),
            forall|j: int|
                0 <= j < prompts@.len() ==> {
                    &&& (#[trigger] prompts@[j]).index == j
                    &&& prompts@[j].text@ == transcript_prompts(transcript@)[j]
                    &&& prompt_stamps(lines_of(transcript@))[j] matches Some(t)
                        ==> prompts@[j].timestamp == t
                },
            out@.len() == i,
            forall|j: int|
                0 <= j < i ==> {
                    &&& (#[trigger] out@[j]).index == j
                    &&& out@[j].text@ == transcript_prompts(transcript@)[j]
                    &&& match lookup(records@, sha256_hex(transcript_prompts(transcript@)[j])) {
                        Some(rec) => out@[j].git_commit_before == rec.commit_before
                            && out@[j].git_commit_after == rec.commit_after,
                        None => out@[j].git_commit_before@ == "NONE"@ && out@[j].git_commit_after
                            is None,
                    }
                    &&& prompt_stamps(lines_of(transcript@))[j] matches Some(t)
                        ==> out@[j].timestamp == t
                },
        decreases prompts.len() - i,
    {
        let hash = calculate_hash(prompts[i].text.as_str());
        let p = with_record(&prompts[i], records.get(hash.as_str()));
        out.push(p);
        i = i + 1;
    }
    out
}

/// A prompt recorded when sent, with a usable revision, and then marked
/// completed, allows reverting its code and both, and counts as sent from
/// the application.
pub proof fn lemma_recorded_prompt_allows_code_revert(
    m: Map<Seq<char>, GitRecord>,
    transcript: Seq<char>,
    k: int,
    prompt_text: Seq<char>,
    commit_before: String,
    timestamp: i64,
    commit_after: String,
    c: RewindCapabilities,
)
    requires
        0 <= k < transcript_prompts(transcript).len(),
        transcript_prompts(transcript)[k] == prompt_text,
        usable_commit(commit_before@),
        capabilities_match(
            c,
            lookup(
                completed(
                    submitted(m, prompt_text, commit_before, timestamp),
                    sha256_hex(transcript_prompts(transcript)[k]),
                    commit_after,
                ),
                sha256_hex(transcript_prompts(transcript)[k]),
            ),
        ),
    ensures
        c.conversation,
        c.code,
        c.both,
        c.source@ == "project"@,
        c.warning is None,
{
}

/// A prompt that was never recorded (sent from the command line) allows
/// no code revert and counts as sent from the command line.
pub proof fn lemma_unrecorded_prompt_is_cli(
    m: Map<Seq<char>, GitRecord>,
    prompt_text: Seq<char>,
    c: RewindCapabilities,
)
    requires
        !m.contains_key(sha256_hex(prompt_text)),
        capabilities_match(c, lookup(m, sha256_hex(prompt_text))),
    ensures
        c.conversation,
        !c.code,
        !c.both,
        c.source@ == "cli"@,
{
}

/// After a conversation revert to prompt `k`, the transcript holds exactly
/// `k` prompts, the first `k` of before, and no record is left for any
/// prompt at or after `k`; records of other keys are kept.
pub proof fn lemma_conversation_revert(
    before: Seq<char>,
    after: Seq<char>,
    k: int,
    old_records: Map<Seq<char>, GitRecord>,
    new_records: Map<Seq<char>, GitRecord>,
)
    requires
        0 <= k < transcript_prompts(before).len(),
        transcript_prompts(after) == transcript_prompts(before).take(k),
        new_records == old_records.remove_keys(keys_from(transcript_prompts(before), k)),
    ensures
        transcript_prompts(after).len() == k,
        forall|j: int|
            0 <= j < k ==> transcript_prompts(after)[j] == transcript_prompts(before)[j],
        forall|j: int|
            k <= j < transcript_prompts(before).len() ==> !new_records.contains_key(
                sha256_hex(#[trigger] transcript_prompts(before)[j]),
            ),
        forall|h: Seq<char>|
            !keys_from(transcript_prompts(before), k).contains(h) && old_records.contains_key(h)
                ==> new_records.contains_key(h) && new_records[h] == old_records[h],
{
    let ps = transcript_prompts(before);
    assert forall|j: int| k <= j < ps.len() implies !new_records.contains_key(
        sha256_hex(#[trigger] ps[j]),
    ) by {
        assert(keys_from(ps, k).contains(sha256_hex(ps[j])));
    }
}

/// After a revert that touches the conversation to prompt `k`, the record
/// of an earlier prompt `j` is kept as it was, provided its key is not also
/// the key of a prompt at or after `k` (prompts with the same text share a
/// key, and so a record).
pub proof fn lemma_revert_keeps_earlier_record(
    before: Seq<char>,
    k: int,
    j: int,
    old_records: Map<Seq<char>, GitRecord>,
    new_records: Map<Seq<char>, GitRecord>,
)
    requires
        0 <= j < k < transcript_prompts(before).len(),
        forall|i: int|
            k <= i < transcript_prompts(before).len() ==> sha256_hex(
                #[trigger] transcript_prompts(before)[i],
            ) != sha256_hex(transcript_prompts(before)[j]),
        old_records.contains_key(sha256_hex(transcript_prompts(before)[j])),
        new_records == old_records.remove_keys(keys_from(transcript_prompts(before), k)),
    ensures
        new_records.contains_key(sha256_hex(transcript_prompts(before)[j])),
        new_records[sha256_hex(transcript_prompts(before)[j])] == old_records[sha256_hex(
            transcript_prompts(before)[j],
        )],
{
    let ps = transcript_prompts(before);
    let h = sha256_hex(ps[j]);
    assert(!keys_from(ps, k).contains(h)) by {
        if keys_from(ps, k).contains(h) {
            let i = choose|i: int| k <= i < ps.len() && h == sha256_hex(ps[i]);
            assert(sha256_hex(ps[i]) != h);
        }
    }
}

} // verus!
