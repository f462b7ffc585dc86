//! The incremental record cache: one entry per source file path, valid for
//! a scan only while the stored modification time equals the file's
//! current one. The store here is the in-memory table and its contract;
//! durability (loading it at startup, writing entries through to disk) is
//! plumbing the caller wraps around it.

use vstd::prelude::*;
use crate::domain::{AgentType, AgentRecord, RecordView, Timestamp};
use crate::scanner::FileInfo;

verus! {

/// What a lookup yields from a cache state: the first entry for `path`,
/// and only when its stored `modified_at` equals `m` exactly; any
/// mismatch, like any absence, is a miss.
pub open spec fn spec_lookup(s: Seq<RecordView>, path: Seq<char>, m: Timestamp) -> Option<
    RecordView,
>
    decreases s.len(),
{
    if s.len() == 0 {
        None
    } else if s[0].file_path == path {
        if s[0].modified_at == m {
            Some(s[0])
        } else {
            None
        }
    } else {
        spec_lookup(s.drop_first(), path, m)
    }
}

/// What an upsert yields: the first entry for the record's path is
/// replaced unconditionally, or the record is appended when none exists.
pub open spec fn spec_store(s: Seq<RecordView>, r: RecordView) -> Seq<RecordView>
    decreases s.len(),
{
    if s.len() == 0 {
        seq![r]
    } else if s[0].file_path == r.file_path {
        seq![r] + s.drop_first()
    } else {
        seq![s[0]] + spec_store(s.drop_first(), r)
    }
}

/// After an upsert, a lookup sees the new record for its path (exactly at
/// its modification time) and is untouched for every other path.
pub proof fn lemma_lookup_after_store(
    s: Seq<RecordView>,
    r: RecordView,
    path: Seq<char>,
    m: Timestamp,
)
    ensures
        spec_lookup(spec_store(s, r), path, m) == (if path == r.file_path {
            if m == r.modified_at {
                Some(r)
            } else {
                None::<RecordView>
            }
        } else {
            spec_lookup(s, path, m)
        }),
    decreases s.len(),
{
    if s.len() == 0 {
        let t = spec_store(s, r);
        assert(t == seq![r]);
        assert(t.len() == 1);
        assert(t[0] == r);
        assert(t.drop_first() =~= Seq::<RecordView>::empty());
        assert(spec_lookup(t.drop_first(), path, m) is None);
    } else if s[0].file_path == r.file_path {
        let t = spec_store(s, r);
        assert(t == seq![r] + s.drop_first());
        assert(t.len() == s.len());
        assert(t[0] == r);
        assert(t.drop_first() =~= s.drop_first());
    } else {
        let t = spec_store(s, r);
        assert(t == seq![s[0]] + spec_store(s.drop_first(), r));
        lemma_store_len(s.drop_first(), r);
        assert(t.len() > 0);
        assert(t[0] == s[0]);
        assert(t.drop_first() =~= spec_store(s.drop_first(), r));
        lemma_lookup_after_store(s.drop_first(), r, path, m);
    }
}

/// An upsert grows the table by at most the one record.
pub proof fn lemma_store_len(s: Seq<RecordView>, r: RecordView)
    ensures
        spec_store(s, r).len() == s.len() || spec_store(s, r).len() == s.len() + 1,
    decreases s.len(),
{
    if s.len() == 0 {
    } else if s[0].file_path == r.file_path {
    } else {
        lemma_store_len(s.drop_first(), r);
    }
}

/// The cached parse results, keyed by file path.
#[derive(Debug)]
pub struct CacheDb {
    entries: Vec<AgentRecord>,
}

impl View for CacheDb {
    type V = Seq<RecordView>;

    closed spec fn view(&self) -> Seq<RecordView> {
        self.entries.deep_view()
    }
}

impl CacheDb {
    /// An empty cache.
    pub fn new() -> (r: Self)
        ensures
            r@ == Seq::<RecordView>::empty(),
    {
        let r = CacheDb { entries: Vec::new() };
        proof {
            assert(r@ =~= Seq::<RecordView>::empty());
        }
        r
    }

    /// Rehydrates a stored record, but only when the stored entry's
    /// modification time equals `modified_at` exactly; never a stale one.
    pub fn get_cached_record(&self, file_path: &str, modified_at: Timestamp) -> (r: Option<
        AgentRecord,
    >)
        ensures
            match r {
                Some(rec) => spec_lookup(self@, file_path@, modified_at) == Some(rec@),
                None => spec_lookup(self@, file_path@, modified_at) is None,
            },
    {
        let mut i: usize = 0;
        assert(self@.skip(0) =~= self@);
        while i < self.entries.len()
            invariant
                i <= self.entries.len(),
                spec_lookup(self@, file_path@, modified_at) == spec_lookup(
                    self@.skip(i as int),
                    file_path@,
                    modified_at,
                ),
            decreases self.entries.len() - i,
        {
            proof {
                assert(self@.skip(i as int)[0] == self@[i as int]);
                assert(self@.skip(i as int).drop_first() =~= self@.skip(i + 1));
            }
            if crate::json::str_eq(self.entries[i].file_path.as_str(), file_path) {
                if self.entries[i].modified_at.secs == modified_at.secs
                    && self.entries[i].modified_at.nanos == modified_at.nanos {
                    let rec = self.entries[i].clone();
                    return Some(rec);
                } else {
                    return None;
                }
            }
            i += 1;
        }
        None
    }

    /// Upserts the entry for the record's path, overwriting any prior
    /// entry unconditionally.
    pub fn cache_record(&mut self, record: AgentRecord)
        ensures
            final(self)@ == spec_store(old(self)@, record@),
    {
        let ghost s = self@;
        let ghost rv = record@;
        let mut i: usize = 0;
        while i < self.entries.len()
            invariant
                i <= self.entries.len(),
                self@ == s,
                record@ == rv,
                forall|j: int| 0 <= j < i ==> s[j].file_path != rv.file_path,
            decreases self.entries.len() - i,
        {
            if crate::json::str_eq(self.entries[i].file_path.as_str(), record.file_path.as_str()) {
                proof {
                    lemma_store_found(s, rv, i as int);
                }
                self.entries[i] = record;
                proof {
                    assert(self@ =~= s.update(i as int, rv));
                }
                return ;
            }
            i += 1;
        }
        proof {
            lemma_store_append(s, rv);
        }
        self.entries.push(record);
        proof {
            assert(self@ =~= s.push(rv));
        }
    }

    /// How many entries the cache holds, in all and per agent label.
    pub fn get_cache_stats(&self) -> (r: CacheStats)
        ensures
            r.total_entries == self@.len(),
            r.entries_by_agent.deep_view() == spec_agent_counts(self@),
    {
        let mut claudecode: usize = 0;
        let mut codex: usize = 0;
        let mut gemini: usize = 0;
        let mut codexia: usize = 0;
        let mut i: usize = 0;
        while i < self.entries.len()
            invariant
                i <= self.entries.len(),
                claudecode == spec_count_agent(self@.take(i as int), AgentType::ClaudeCode),
                codex == spec_count_agent(self@.take(i as int), AgentType::Codex),
                gemini == spec_count_agent(self@.take(i as int), AgentType::Gemini),
                codexia == spec_count_agent(self@.take(i as int), AgentType::Codexia),
                claudecode + codex + gemini + codexia <= i,
            decreases self.entries.len() - i,
        {
            proof {
                assert(self@.take(i + 1).drop_last() =~= self@.take(i as int));
                assert(self@.take(i + 1).last() == self@[i as int]);
            }
            match self.entries[i].agent_type {
                AgentType::ClaudeCode => {
                    claudecode += 1;
                },
                AgentType::Codex => {
                    codex += 1;
                },
                AgentType::Gemini => {
                    gemini += 1;
                },
                AgentType::Codexia => {
                    codexia += 1;
                },
            }
            i += 1;
        }
        proof {
            assert(self@.take(self@.len() as int) =~= self@);
        }
        let labels = push_count(claudecode, codex, gemini, codexia);
        CacheStats { total_entries: self.entries.len(), entries_by_agent: labels }
    }
}

/// How many cache entries belong to one agent.
pub open spec fn spec_count_agent(s: Seq<RecordView>, t: AgentType) -> int
    decreases s.len(),
{
    if s.len() == 0 {
        0
    } else {
        spec_count_agent(s.drop_last(), t) + if s.last().agent_type == t {
            1int
        } else {
            0int
        }
    }
}

/// The per-agent entry counts reported by the stats: one pair per agent
/// that has entries, in a fixed label order.
pub open spec fn spec_agent_counts(s: Seq<RecordView>) -> Seq<(Seq<char>, usize)> {
    spec_count_pairs(
        spec_count_agent(s, AgentType::ClaudeCode),
        spec_count_agent(s, AgentType::Codex),
        spec_count_agent(s, AgentType::Gemini),
        spec_count_agent(s, AgentType::Codexia),
    )
}

pub open spec fn spec_count_pairs(claudecode: int, codex: int, gemini: int, codexia: int) -> Seq<
    (Seq<char>, usize),
> {
    let a = if claudecode > 0 {
        seq![("ClaudeCode"@, claudecode as usize)]
    } else {
        Seq::empty()
    };
    let b = if codex > 0 {
        a.push(("Codex"@, codex as usize))
    } else {
        a
    };
    let c = if gemini > 0 {
        b.push(("Gemini"@, gemini as usize))
    } else {
        b
    };
    if codexia > 0 {
        c.push(("Codexia"@, codexia as usize))
    } else {
        c
    }
}

fn push_count(claudecode: usize, codex: usize, gemini: usize, codexia: usize) -> (r: Vec<
    (String, usize),
>)
    ensures
        r.deep_view() == spec_count_pairs(claudecode as int, codex as int, gemini as int,
            codexia as int),
{
    let mut by_agent: Vec<(String, usize)> = Vec::new();
    if claudecode > 0 {
        by_agent.push((String::from_str("ClaudeCode"), claudecode));
        proof {
            assert(by_agent.deep_view() =~= seq![("ClaudeCode"@, claudecode)]);
        }
    } else {
        proof {
            assert(by_agent.deep_view() =~= Seq::<(Seq<char>, usize)>::empty());
        }
    }
    let ghost a = by_agent.deep_view();
    if codex > 0 {
        by_agent.push((String::from_str("Codex"), codex));
        proof {
            assert(by_agent.deep_view() =~= a.push(("Codex"@, codex)));
        }
    }
    let ghost b = by_agent.deep_view();
    if gemini > 0 {
        by_agent.push((String::from_str("Gemini"), gemini));
        proof {
            assert(by_agent.deep_view() =~= b.push(("Gemini"@, gemini)));
        }
    }
    let ghost c = by_agent.deep_view();
    if codexia > 0 {
        by_agent.push((String::from_str("Codexia"), codexia));
        proof {
            assert(by_agent.deep_view() =~= c.push(("Codexia"@, codexia)));
        }
    }
    by_agent
}

/// How much the cache holds: the diagnostic summary of the stored entries.
#[derive(Debug)]
pub struct CacheStats {
    pub total_entries: usize,
    pub entries_by_agent: Vec<(String, usize)>,
}

/// Replacing at the first matching index is an in-place update.
proof fn lemma_store_found(s: Seq<RecordView>, r: RecordView, i: int)
    requires
        0 <= i < s.len(),
        forall|j: int| 0 <= j < i ==> s[j].file_path != r.file_path,
        s[i].file_path == r.file_path,
    ensures
        spec_store(s, r) == s.update(i, r),
    decreases i,
{
    if i == 0 {
        assert(spec_store(s, r) == seq![r] + s.drop_first());
        assert(seq![r] + s.drop_first() =~= s.update(0, r));
    } else {
        lemma_store_found(s.drop_first(), r, i - 1);
        assert(spec_store(s, r) == seq![s[0]] + spec_store(s.drop_first(), r));
        assert(seq![s[0]] + s.drop_first().update(i - 1, r) =~= s.update(i, r));
    }
}

/// With no matching entry, an upsert is an append.
proof fn lemma_store_append(s: Seq<RecordView>, r: RecordView)
    requires
        forall|j: int| 0 <= j < s.len() ==> s[j].file_path != r.file_path,
    ensures
        spec_store(s, r) == s.push(r),
    decreases s.len(),
{
    if s.len() == 0 {
        assert(spec_store(s, r) =~= s.push(r));
    } else {
        lemma_store_append(s.drop_first(), r);
        assert(seq![s[0]] + s.drop_first().push(r) =~= s.push(r));
    }
}

/// One pipeline step for one file: the cache is consulted by path and
/// modification time; on a hit the cached record is reused as it stands,
/// on a miss the matching normalizer runs and its result is written back.
pub open spec fn spec_process(
    cache: Seq<RecordView>,
    agent: AgentType,
    info: crate::scanner::FileInfoView,
    content: Seq<u8>,
) -> (Seq<RecordView>, Option<RecordView>) {
    match spec_lookup(cache, info.path, info.modified_at) {
        Some(rv) => (cache, Some(rv)),
        None => match crate::agents::spec_normalize(agent, info, content) {
            Some(nv) => (spec_store(cache, nv), Some(nv)),
            None => (cache, None),
        },
    }
}

/// Runs one file through the incremental pipeline. A cache read that
/// misses degrades to a fresh parse; a fresh parse is stored back.
pub fn process_file(
    cache: &mut CacheDb,
    agent: AgentType,
    info: &FileInfo,
    content: &Vec<u8>,
) -> (r: Option<AgentRecord>)
    ensures
        final(cache)@ == spec_process(old(cache)@, agent, info@, content@).0,
        match r {
            Some(rec) => spec_process(old(cache)@, agent, info@, content@).1 == Some(rec@),
            None => spec_process(old(cache)@, agent, info@, content@).1 is None,
        },
{
    match cache.get_cached_record(info.path.as_str(), info.modified_at) {
        Some(rec) => Some(rec),
        None => {
            match crate::agents::normalize(agent, info, content) {
                Some(rec) => {
                    let copy = rec.clone();
                    cache.cache_record(copy);
                    Some(rec)
                },
                None => None,
            }
        },
    }
}

/// Re-scanning an unchanged file never normalizes it again: once a pass
/// over a file has produced a record, a second pass over the same path and
/// the same modification time returns that very record — whatever bytes
/// are offered the second time — and leaves the cache as it was.
pub proof fn lemma_rescan_unchanged(
    cache: Seq<RecordView>,
    agent: AgentType,
    info: crate::scanner::FileInfoView,
    content1: Seq<u8>,
    content2: Seq<u8>,
)
    requires
        spec_process(cache, agent, info, content1).1 is Some,
    ensures
        spec_process(spec_process(cache, agent, info, content1).0, agent, info, content2).0
            == spec_process(cache, agent, info, content1).0,
        spec_process(spec_process(cache, agent, info, content1).0, agent, info, content2).1
            == spec_process(cache, agent, info, content1).1,
{
    let hit = spec_lookup(cache, info.path, info.modified_at);
    match hit {
        Some(rv) => {
        },
        None => {
            let nv = crate::agents::spec_normalize(agent, info, content1)->0;
            crate::agents::lemma_normalize_keys(agent, info, content1);
            lemma_lookup_after_store(cache, nv, info.path, info.modified_at);
        },
    }
}

/// Changing a file's modification time forces a re-parse: after a pass
/// over the file at one modification time, a pass at any other one (fresh
/// for this cache) normalizes the offered content anew — identical content
/// included — rather than reusing the stored record.
pub proof fn lemma_changed_mtime_reparses(
    cache: Seq<RecordView>,
    agent: AgentType,
    info1: crate::scanner::FileInfoView,
    content1: Seq<u8>,
    info2: crate::scanner::FileInfoView,
    content2: Seq<u8>,
)
    requires
        info2.path == info1.path,
        info2.modified_at != info1.modified_at,
        spec_lookup(cache, info2.path, info2.modified_at) is None,
    ensures
        spec_process(spec_process(cache, agent, info1, content1).0, agent, info2, content2).1
            == crate::agents::spec_normalize(agent, info2, content2),
{
    let hit = spec_lookup(cache, info1.path, info1.modified_at);
    match hit {
        Some(rv) => {
        },
        None => {
            match crate::agents::spec_normalize(agent, info1, content1) {
                Some(nv) => {
                    crate::agents::lemma_normalize_keys(agent, info1, content1);
                    lemma_lookup_after_store(cache, nv, info2.path, info2.modified_at);
                },
                None => {
                },
            }
        },
    }
}

} // verus!
