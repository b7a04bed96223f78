//! The git-record store: for each prompt sent through the application, the
//! revisions before and after it, keyed by the SHA-256 of the prompt's text.
//! A key survives the cutting of earlier prompts from the transcript; the
//! price is that two prompts with the same text share one record.
use vstd::prelude::*;

use crate::error::TrackerError;
use crate::json::{find_member, member, parse_json, parsed_json, pretty_json, render_json, Json};
use crate::text::same_text;

verus! {

/// The revisions around one prompt.
#[derive(Debug)]
pub struct GitRecord {
    /// Revision before the prompt was sent.
    pub commit_before: String,
    /// Revision after the assistant finished, once known.
    pub commit_after: Option<String>,
    /// When the prompt was sent, in seconds since the Unix epoch.
    pub timestamp: i64,
}

fn copy_text(o: &Option<String>) -> (r: Option<String>)
    ensures
        r == *o,
{
    match o {
        Some(s) => Some(s.clone()),
        None => None,
    }
}

impl GitRecord {
    /// A copy of the record.
    pub fn duplicate(&self) -> (r: GitRecord)
        ensures
            r == *self,
    {
        GitRecord {
            commit_before: self.commit_before.clone(),
            commit_after: copy_text(&self.commit_after),
            timestamp: self.timestamp,
        }
    }
}

/// What the SHA-256 digest of a text's UTF-8 bytes is, written as 64
/// lower-case hexadecimal digits.
pub uninterp spec fn sha256_hex(s: Seq<char>) -> Seq<char>;

/// Relies on `sha2::Sha256::digest` and the `LowerHex` form of its output:
/// the key under which a prompt's record is kept.
#[verifier::external_body]
pub fn calculate_hash(text: &str) -> (r: String)
    ensures
        r@ == sha256_hex(text@),
{
    format!("{:x}", <sha2::Sha256 as sha2::Digest>::digest(text.as_bytes()))
}

/// The map that a list of entries stands for: a later entry replaces an
/// earlier one under the same key.
pub open spec fn entries_map(es: Seq<(String, GitRecord)>) -> Map<Seq<char>, GitRecord>
    decreases es.len(),
{
    if es.len() == 0 {
        Map::empty()
    } else {
        entries_map(es.drop_last()).insert(es.last().0@, es.last().1)
    }
}

/// A record as the store file holds it.
pub open spec fn record_of_json(j: Json) -> Option<GitRecord> {
    match member(j, "commitBefore"@) {
        Some(Json::Str(before)) => match member(j, "timestamp"@) {
            Some(Json::Int(ts)) => match member(j, "commitAfter"@) {
                None => Some(GitRecord { commit_before: before, commit_after: None, timestamp: ts }),
                Some(Json::Null) => Some(
                    GitRecord { commit_before: before, commit_after: None, timestamp: ts },
                ),
                Some(Json::Str(after)) => Some(
                    GitRecord { commit_before: before, commit_after: Some(after), timestamp: ts },
                ),
                _ => None,
            },
            _ => None,
        },
        _ => None,
    }
}

/// The records of an object's members, in order; `None` if any member is
/// not a record.
pub open spec fn records_of_members(es: Seq<(String, Json)>) -> Option<Map<Seq<char>, GitRecord>>
    decreases es.len(),
{
    if es.len() == 0 {
        Some(Map::empty())
    } else {
        match (records_of_members(es.drop_last()), record_of_json(es.last().1)) {
            (Some(m), Some(r)) => Some(m.insert(es.last().0@, r)),
            _ => None,
        }
    }
}

/// The records a store document holds; `None` for a malformed document.
pub open spec fn records_of_json(j: Json) -> Option<Map<Seq<char>, GitRecord>> {
    match j {
        Json::Object(es) => records_of_members(es@),
        _ => None,
    }
}

pub open spec fn lookup(m: Map<Seq<char>, GitRecord>, key: Seq<char>) -> Option<GitRecord> {
    if m.contains_key(key) {
        Some(m[key])
    } else {
        None
    }
}

proof fn lemma_members_prefix(es: Seq<(String, Json)>, n: int)
    requires
        0 <= n <= es.len(),
        records_of_members(es) is Some,
    ensures
        records_of_members(es.take(n)) is Some,
    decreases es.len(),
{
    if n == es.len() {
        assert(es.take(n) == es);
    } else {
        assert(es.drop_last().take(n) == es.take(n));
        lemma_members_prefix(es.drop_last(), n);
    }
}

/// The git records of one session.
#[derive(Debug)]
pub struct GitRecordStore {
    entries: Vec<(String, GitRecord)>,
}

impl View for GitRecordStore {
    type V = Map<Seq<char>, GitRecord>;

    closed spec fn view(&self) -> Map<Seq<char>, GitRecord> {
        entries_map(self.entries@)
    }
}

/// A record as the store file holds it.
fn record_to_json(r: &GitRecord) -> (j: Json)
    ensures
        record_of_json(j) == Some(*r),
{
    let kb = String::from_str("commitBefore");
    let ka = String::from_str("commitAfter");
    let kt = String::from_str("timestamp");
    proof {
        reveal_strlit("commitBefore");
        reveal_strlit("commitAfter");
        reveal_strlit("timestamp");
    }
    let after = match &r.commit_after {
        Some(a) => Json::Str(a.clone()),
        None => Json::Null,
    };
    let mut es: Vec<(String, Json)> = Vec::new();
    es.push((kb, Json::Str(r.commit_before.clone())));
    es.push((ka, after));
    es.push((kt, Json::Int(r.timestamp)));
    assert(kb@.len() == 12 && ka@.len() == 11 && kt@.len() == 9);
    assert(kb@ != ka@ && kb@ != kt@ && ka@ != kt@);
    assert(find_member(es@, "commitBefore"@, 0) == Some(es@[0].1));
    assert(es@[0].0@ == kb@ && es@[1].0@ == ka@ && es@[2].0@ == kt@);
    assert(find_member(es@, "commitAfter"@, 3) == None::<Json>);
    assert(find_member(es@, "commitAfter"@, 2) == None::<Json>);
    assert(find_member(es@, "commitAfter"@, 1) == Some(es@[1].1));
    assert(find_member(es@, "commitAfter"@, 0) == Some(es@[1].1));
    assert(find_member(es@, "timestamp"@, 2) == Some(es@[2].1));
    assert(find_member(es@, "timestamp"@, 1) == Some(es@[2].1));
    assert(find_member(es@, "timestamp"@, 0) == Some(es@[2].1));
    let j = Json::Object(es);
    assert(member(j, "commitBefore"@) == Some(Json::Str(r.commit_before)));
    assert(member(j, "timestamp"@) == Some(Json::Int(r.timestamp)));
    j
}

/// A record read from the store file.
fn record_from_json(j: &Json) -> (r: Option<GitRecord>)
    ensures
        r == record_of_json(*j),
{
    let before = match j.get("commitBefore") {
        Some(Json::Str(b)) => b.clone(),
        _ => {
            return None;
        },
    };
    let ts = match j.get("timestamp") {
        Some(Json::Int(t)) => *t,
        _ => {
            return None;
        },
    };
    let after = match j.get("commitAfter") {
        None => None,
        Some(Json::Null) => None,
        Some(Json::Str(a)) => Some(a.clone()),
        _ => {
            return None;
        },
    };
    Some(GitRecord { commit_before: before, commit_after: after, timestamp: ts })
}

impl GitRecordStore {
    /// A store with no records.
    pub fn new() -> (r: GitRecordStore)
        ensures
            r@ == Map::<Seq<char>, GitRecord>::empty(),
    {
        GitRecordStore { entries: Vec::new() }
    }

    /// A copy of the store.
    pub fn duplicate(&self) -> (r: GitRecordStore)
        ensures
            r@ == self@,
    {
        let mut es: Vec<(String, GitRecord)> = Vec::new();
        let mut i: usize = 0;
        while i < self.entries.len()
            invariant
                i <= self.entries@.len(),
                es@ == self.entries@.take(i as int),
            decreases self.entries.len() - i,
        {
            es.push((self.entries[i].0.clone(), self.entries[i].1.duplicate()));
            assert(self.entries@.take(i + 1) == self.entries@.take(i as int).push(
                self.entries@[i as int],
            ));
            i = i + 1;
        }
        assert(self.entries@.take(self.entries@.len() as int) == self.entries@);
        GitRecordStore { entries: es }
    }

    /// The record kept under `hash`.
    pub fn get(&self, hash: &str) -> (r: Option<GitRecord>)
        ensures
            r == lookup(self@, hash@),
    {
        let mut found: Option<GitRecord> = None;
        let mut i: usize = 0;
        while i < self.entries.len()
            invariant
                i <= self.entries@.len(),
                found == lookup(entries_map(self.entries@.take(i as int)), hash@),
            decreases self.entries.len() - i,
        {
            assert(self.entries@.take(i + 1).drop_last() == self.entries@.take(i as int));
            if same_text(self.entries[i].0.as_str(), hash) {
                found = Some(self.entries[i].1.duplicate());
            }
            i = i + 1;
        }
        assert(self.entries@.take(self.entries@.len() as int) == self.entries@);
        found
    }

    /// Whether a record is kept under `hash`.
    pub fn contains(&self, hash: &str) -> (r: bool)
        ensures
            r == self@.contains_key(hash@),
    {
        self.get(hash).is_some()
    }

    /// Drops the record kept under `hash`, if any.
    pub fn remove(&mut self, hash: &str)
        ensures
            final(self)@ == old(self)@.remove(hash@),
    {
        let mut kept: Vec<(String, GitRecord)> = Vec::new();
        let mut i: usize = 0;
        while i < self.entries.len()
            invariant
                i <= self.entries@.len(),
                entries_map(kept@) == entries_map(self.entries@.take(i as int)).remove(hash@),
            decreases self.entries.len() - i,
        {
            let ghost before = entries_map(self.entries@.take(i as int));
            assert(self.entries@.take(i + 1).drop_last() == self.entries@.take(i as int));
            let k = self.entries[i].0.clone();
            if same_text(k.as_str(), hash) {
                assert(before.insert(k@, self.entries@[i as int].1).remove(hash@) == before.remove(
                    hash@,
                ));
            } else {
                let ghost prev = kept@;
                kept.push((k, self.entries[i].1.duplicate()));
                assert(kept@.drop_last() == prev);
                assert(before.remove(hash@).insert(k@, self.entries@[i as int].1) == before.insert(
                    k@,
                    self.entries@[i as int].1,
                ).remove(hash@));
            }
            i = i + 1;
        }
        assert(self.entries@.take(self.entries@.len() as int) == self.entries@);
        self.entries = kept;
    }

    /// Keeps `record` under `hash`, replacing any record there.
    pub fn insert(&mut self, hash: String, record: GitRecord)
        ensures
            final(self)@ == old(self)@.insert(hash@, record),
    {
        let ghost h = hash@;
        self.remove(hash.as_str());
        let ghost prev = self.entries@;
        self.entries.push((hash, record));
        assert(self.entries@.drop_last() == prev);
        assert(old(self)@.remove(h).insert(h, record) == old(self)@.insert(h, record));
    }

    /// The store as its JSON document: an object from key to record.
    pub fn to_json(&self) -> (j: Json)
        ensures
            records_of_json(j) == Some(self@),
    {
        let mut out: Vec<(String, Json)> = Vec::new();
        let mut i: usize = 0;
        while i < self.entries.len()
            invariant
                i <= self.entries@.len(),
                records_of_members(out@) == Some(entries_map(self.entries@.take(i as int))),
            decreases self.entries.len() - i,
        {
            assert(self.entries@.take(i + 1).drop_last() == self.entries@.take(i as int));
            let ghost prev = out@;
            out.push((self.entries[i].0.clone(), record_to_json(&self.entries[i].1)));
            assert(out@.drop_last() == prev);
            i = i + 1;
        }
        assert(self.entries@.take(self.entries@.len() as int) == self.entries@);
        Json::Object(out)
    }

    /// The store a JSON document holds; fails on a malformed document.
    pub fn from_json(j: &Json) -> (r: Result<GitRecordStore, TrackerError>)
        ensures
            match r {
                Ok(s) => records_of_json(*j) == Some(s@),
                Err(e) => records_of_json(*j) is None && e == TrackerError::MalformedRecords,
            },
    {
        match j {
            Json::Object(es) => {
                let mut store = GitRecordStore::new();
                let mut i: usize = 0;
                while i < es.len()
                    invariant
                        i <= es@.len(),
                        records_of_json(*j) == records_of_members(es@),
                        records_of_members(es@.take(i as int)) == Some(store@),
                    decreases es.len() - i,
                {
                    assert(es@.take(i + 1).drop_last() == es@.take(i as int));
                    match record_from_json(&es[i].1) {
                        Some(rec) => {
                            store.insert(es[i].0.clone(), rec);
                        },
                        None => {
                            proof {
                                if records_of_members(es@) is Some {
                                    lemma_members_prefix(es@, i + 1);
                                }
                            }
                            return Err(TrackerError::MalformedRecords);
                        },
                    }
                    i = i + 1;
                }
                assert(es@.take(es@.len() as int) == es@);
                Ok(store)
            },
            _ => Err(TrackerError::MalformedRecords),
        }
    }
}

/// The store held in the text of its file; no file means no records.
/// A file that is not a well-formed store is an error, not an empty store.
pub fn load_git_records(content: Option<&str>) -> (r: Result<GitRecordStore, TrackerError>)
    ensures
        match content {
            None => r matches Ok(s) && s@ == Map::<Seq<char>, GitRecord>::empty(),
            Some(t) => match r {
                Ok(s) => parsed_json(t@) matches Some(j) && records_of_json(j) == Some(s@),
                Err(e) => e == TrackerError::MalformedRecords && (parsed_json(t@) matches Some(j)
                    ==> records_of_json(j) is None),
            },
        },
{
    match content {
        None => Ok(GitRecordStore::new()),
        Some(t) => match parse_json(t) {
            Some(j) => GitRecordStore::from_json(&j),
            None => Err(TrackerError::MalformedRecords),
        },
    }
}

/// The text of the store's file: the pretty-printed JSON of a document
/// that holds exactly the store's records.
pub fn save_git_records(records: &GitRecordStore) -> (r: String)
    ensures
        exists|j: Json| r@ == pretty_json(j) && records_of_json(j) == Some(records@),
{
    let j = records.to_json();
    match render_json(&j) {
        Some(t) => t,
        None => String::new(),
    }
}

/// Keeps `record` under `hash`.
pub fn save_git_record(records: &mut GitRecordStore, hash: String, record: GitRecord)
    ensures
        final(records)@ == old(records)@.insert(hash@, record),
{
    records.insert(hash, record);
}

/// The record kept under `hash`.
pub fn get_git_record(records: &GitRecordStore, hash: &str) -> (r: Option<GitRecord>)
    ensures
        r == lookup(records@, hash@),
{
    records.get(hash)
}

} // verus!
