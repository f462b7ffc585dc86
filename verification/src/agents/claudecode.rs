//! Normalizer for the line-delimited event-stream format whose usage
//! numbers are incremental deltas: the four token subtotals are summed
//! across lines, and the grand total is their sum.

use vstd::prelude::*;
use crate::domain::{AgentType, AgentRecord, RecordView, TokenInfo, sat_add64, add_sat};
use crate::json::{
    JsonValue, json_of, parse_json, spec_get, spec_get_str, spec_get_u64, get_u64, str_eq,
};
use crate::scanner::{FileInfo, FileInfoView, FileScanner};
use crate::text::{spec_lines, split_lines};
use crate::agents::{opt_str_view, spec_session_alias, take_session_alias};

verus! {

/// Running state of one pass over a file's lines.
pub ghost struct ClaudeAcc {
    pub session_id: Option<Seq<char>>,
    pub input: u64,
    pub output: u64,
    pub cached: u64,
    pub cache_creation: u64,
    pub tools: Seq<Seq<char>>,
}

pub open spec fn claude_init() -> ClaudeAcc {
    ClaudeAcc {
        session_id: None,
        input: 0,
        output: 0,
        cached: 0,
        cache_creation: 0,
        tools: Seq::empty(),
    }
}

/// The tool names one content item contributes: its `name`, where the item
/// is a `tool_use` entry.
pub open spec fn spec_tool_of_item(item: JsonValue) -> Seq<Seq<char>> {
    if spec_get_str(item, "type"@) == Some("tool_use"@) {
        match spec_get_str(item, "name"@) {
            Some(n) => seq![n],
            None => Seq::empty(),
        }
    } else {
        Seq::empty()
    }
}

pub open spec fn spec_tools_of_content(items: Seq<JsonValue>) -> Seq<Seq<char>>
    decreases items.len(),
{
    if items.len() == 0 {
        Seq::empty()
    } else {
        spec_tools_of_content(items.drop_last()) + spec_tool_of_item(items.last())
    }
}

/// The tool calls one event contributes: the `tool_use` names inside
/// `message.content`, in order.
pub open spec fn spec_claude_tools(j: JsonValue) -> Seq<Seq<char>> {
    match spec_get(j, "message"@) {
        Some(m) => match spec_get(m, "content"@) {
            Some(c) => match c.spec_as_array() {
                Some(items) => spec_tools_of_content(items),
                None => Seq::empty(),
            },
            None => Seq::empty(),
        },
        None => Seq::empty(),
    }
}

/// Where an event carries usage numbers: under `usage`, else under
/// `message.usage`.
pub open spec fn spec_claude_usage(j: JsonValue) -> Option<JsonValue> {
    match spec_get(j, "usage"@) {
        Some(u) => Some(u),
        None => match spec_get(j, "message"@) {
            Some(m) => spec_get(m, "usage"@),
            None => None,
        },
    }
}

/// Adds an optionally present delta, saturating.
pub open spec fn spec_add_opt(cur: u64, v: Option<u64>) -> u64 {
    match v {
        Some(x) => sat_add64(cur, x),
        None => cur,
    }
}

/// One event's effect on the running state.
pub open spec fn claude_event(acc: ClaudeAcc, j: JsonValue) -> ClaudeAcc {
    let sid = match acc.session_id {
        Some(s) => Some(s),
        None => spec_session_alias(j),
    };
    let tools = acc.tools + spec_claude_tools(j);
    match spec_claude_usage(j) {
        Some(u) => ClaudeAcc {
            session_id: sid,
            input: spec_add_opt(acc.input, spec_get_u64(u, "input_tokens"@)),
            output: spec_add_opt(acc.output, spec_get_u64(u, "output_tokens"@)),
            cached: spec_add_opt(acc.cached, spec_get_u64(u, "cache_read_input_tokens"@)),
            cache_creation: spec_add_opt(
                acc.cache_creation,
                spec_get_u64(u, "cache_creation_input_tokens"@),
            ),
            tools: tools,
        },
        None => ClaudeAcc {
            session_id: sid,
            input: acc.input,
            output: acc.output,
            cached: acc.cached,
            cache_creation: acc.cache_creation,
            tools: tools,
        },
    }
}

/// One line's effect: a line that is not a well-formed JSON document
/// contributes nothing and never aborts the file.
pub open spec fn claude_line(acc: ClaudeAcc, line: Seq<u8>) -> ClaudeAcc {
    match json_of(line) {
        Some(j) => claude_event(acc, j),
        None => acc,
    }
}

pub open spec fn claude_fold(lines: Seq<Seq<u8>>) -> ClaudeAcc
    decreases lines.len(),
{
    if lines.len() == 0 {
        claude_init()
    } else {
        claude_line(claude_fold(lines.drop_last()), lines.last())
    }
}

/// The token summary reported for a finished pass: absent exactly when both
/// accumulated input and output are zero; the total is the saturating sum
/// of the four subtotals.
pub open spec fn spec_claude_tokens(acc: ClaudeAcc) -> Option<TokenInfo> {
    if acc.input > 0 || acc.output > 0 {
        Some(
            TokenInfo {
                input: acc.input,
                output: acc.output,
                cached: acc.cached,
                cache_creation: acc.cache_creation,
                reasoning: 0,
                total: sat_add64(
                    sat_add64(sat_add64(acc.input, acc.output), acc.cached),
                    acc.cache_creation,
                ),
            },
        )
    } else {
        None
    }
}

/// The record this normalizer produces for a file with the given metadata
/// and raw content.
pub open spec fn spec_normalize_claude(info: FileInfoView, content: Seq<u8>) -> RecordView {
    let acc = claude_fold(spec_lines(content));
    RecordView {
        agent_type: AgentType::ClaudeCode,
        file_path: info.path,
        created_at: info.created_at,
        modified_at: info.modified_at,
        file_size: info.size,
        session_id: acc.session_id,
        tokens: spec_claude_tokens(acc),
        tool_calls: acc.tools,
    }
}

/// Applies one parsed event to the running state.
fn claude_apply(
    j: &JsonValue,
    session_id: &mut Option<String>,
    input: &mut u64,
    output: &mut u64,
    cached: &mut u64,
    cache_creation: &mut u64,
    tools: &mut Vec<String>,
)
    ensures
        ({
            let acc = claude_event(
                ClaudeAcc {
                    session_id: opt_str_view(*old(session_id)),
                    input: *old(input),
                    output: *old(output),
                    cached: *old(cached),
                    cache_creation: *old(cache_creation),
                    tools: old(tools).deep_view(),
                },
                *j,
            );
            &&& opt_str_view(*final(session_id)) == acc.session_id
            &&& *final(input) == acc.input
            &&& *final(output) == acc.output
            &&& *final(cached) == acc.cached
            &&& *final(cache_creation) == acc.cache_creation
            &&& final(tools).deep_view() == acc.tools
        }),
{
    take_session_alias(j, session_id);
    let ghost tools0 = tools.deep_view();
    match j.get("message") {
        Some(m) => {
            match m.get("content") {
                Some(c) => {
                    match c.as_array() {
                        Some(items) => {
                            let mut k: usize = 0;
                            while k < items.len()
                                invariant
                                    k <= items.len(),
                                    tools.deep_view() == tools0 + spec_tools_of_content(
                                        items@.take(k as int),
                                    ),
                                decreases items.len() - k,
                            {
                                proof {
                                    assert(items@.take(k + 1).drop_last() =~= items@.take(
                                        k as int,
                                    ));
                                    assert(items@.take(k + 1).last() == items@[k as int]);
                                }
                                let ghost prev = tools.deep_view();
                                let item = &items[k];
                                match item.get("type") {
                                    Some(t) => {
                                        match t.as_str() {
                                            Some(ts) => {
                                                if str_eq(ts.as_str(), "tool_use") {
                                                    match crate::json::get_str(item, "name") {
                                                        Some(n) => {
                                                            tools.push(n.clone());
                                                            proof {
                                                                assert(tools.deep_view()
                                                                    =~= prev.push(n@));
                                                            }
                                                        },
                                                        None => {},
                                                    }
                                                }
                                            },
                                            None => {},
                                        }
                                    },
                                    None => {},
                                }
                                proof {
                                    assert(tools.deep_view() =~= tools0 + spec_tools_of_content(
                                        items@.take(k + 1),
                                    ));
                                }
                                k += 1;
                            }
                            proof {
                                assert(items@.take(items@.len() as int) =~= items@);
                            }
                        },
                        None => {},
                    }
                },
                None => {},
            }
        },
        None => {},
    }
    let usage = match j.get("usage") {
        Some(u) => Some(u),
        None => match j.get("message") {
            Some(m) => m.get("usage"),
            None => None,
        },
    };
    match usage {
        Some(u) => {
            match get_u64(u, "input_tokens") {
                Some(x) => {
                    *input = add_sat(*input, x);
                },
                None => {},
            }
            match get_u64(u, "output_tokens") {
                Some(x) => {
                    *output = add_sat(*output, x);
                },
                None => {},
            }
            match get_u64(u, "cache_read_input_tokens") {
                Some(x) => {
                    *cached = add_sat(*cached, x);
                },
                None => {},
            }
            match get_u64(u, "cache_creation_input_tokens") {
                Some(x) => {
                    *cache_creation = add_sat(*cache_creation, x);
                },
                None => {},
            }
        },
        None => {},
    }
}

/// Normalizes one file of this format. Only whole-file unreadability can
/// fail a file of a line-delimited format, and reading is the caller's;
/// from raw bytes on, normalization always succeeds.
pub fn normalize_claude(info: &FileInfo, content: &Vec<u8>) -> (r: AgentRecord)
    ensures
        r@ == spec_normalize_claude(info@, content@),
{
    let lines = split_lines(content);
    let ghost lv = lines.deep_view();
    let mut session_id: Option<String> = None;
    let mut input: u64 = 0;
    let mut output: u64 = 0;
    let mut cached: u64 = 0;
    let mut cache_creation: u64 = 0;
    let mut tools: Vec<String> = Vec::new();
    let mut i: usize = 0;
    while i < lines.len()
        invariant
            i <= lines.len(),
            ({
                let acc = claude_fold(lv.take(i as int));
                &&& opt_str_view(session_id) == acc.session_id
                &&& input == acc.input
                &&& output == acc.output
                &&& cached == acc.cached
                &&& cache_creation == acc.cache_creation
                &&& tools.deep_view() == acc.tools
            }),
        decreases lines.len() - i,
    {
        proof {
            assert(lv.take(i + 1).drop_last() =~= lv.take(i as int));
            assert(lv.take(i + 1).last() == lv[i as int]);
            assert(lines@[i as int].deep_view() == lv[i as int]);
            assert(lines@[i as int]@ == lv[i as int]);
        }
        match parse_json(&lines[i]) {
            Some(j) => {
                claude_apply(
                    &j,
                    &mut session_id,
                    &mut input,
                    &mut output,
                    &mut cached,
                    &mut cache_creation,
                    &mut tools,
                );
            },
            None => {},
        }
        i += 1;
    }
    proof {
        assert(lv.take(lv.len() as int) =~= lv);
    }
    let tokens = if input > 0 || output > 0 {
        let total = add_sat(add_sat(add_sat(input, output), cached), cache_creation);
        Some(
            TokenInfo {
                input,
                output,
                cached,
                cache_creation,
                reasoning: 0,
                total,
            },
        )
    } else {
        None
    };
    AgentRecord {
        agent_type: AgentType::ClaudeCode,
        file_path: info.path.clone(),
        created_at: info.created_at,
        modified_at: info.modified_at,
        file_size: info.size,
        session_id,
        tokens,
        tool_calls: tools,
    }
}

/// Scans this format's log directory. The file walk and the reads are the
/// caller's; the scanner owns the root, the file filter and the cached
/// pipeline over what was read.
#[derive(Debug)]
pub struct ClaudeScanner {
    pub scanner: FileScanner,
}

/// Whether a scan leaves a file out: files named by the internal agent
/// marker convention are excluded by the scan, not by the normalizer.
pub open spec fn spec_claude_skips(info: FileInfoView) -> bool {
    crate::text::spec_starts_with(crate::text::spec_file_name(info.path), "agent"@)
}

/// What one scan makes of the walked files, threading the cache through:
/// the final cache state and the records, in file order.
pub open spec fn spec_scan_claude(
    cache: Seq<RecordView>,
    files: Seq<crate::scanner::ScannedFileView>,
) -> (Seq<RecordView>, Seq<RecordView>)
    decreases files.len(),
{
    if files.len() == 0 {
        (cache, Seq::empty())
    } else {
        let p = spec_scan_claude(cache, files.drop_last());
        let f = files.last();
        if spec_claude_skips(f.info) {
            p
        } else {
            let st = crate::cache::spec_process(p.0, AgentType::ClaudeCode, f.info, f.content);
            (st.0, p.1.push(st.1->0))
        }
    }
}

impl ClaudeScanner {
    pub fn new(home_dir: &str) -> (r: Self)
        ensures
            r.scanner.root@ == home_dir@ + "/.claudecode/projects"@,
    {
        let mut root = String::from_str(home_dir);
        root.append("/.claudecode/projects");
        ClaudeScanner { scanner: FileScanner::new(root) }
    }

    /// Runs the cached pipeline over the walked files: agent-marker files
    /// are skipped, every other file is served from the cache when its
    /// modification time still matches and parsed afresh otherwise.
    pub fn scan(&self, cache: &mut crate::cache::CacheDb, files: &Vec<crate::scanner::ScannedFile>)
        -> (r: Vec<AgentRecord>)
        ensures
            final(cache)@ == spec_scan_claude(old(cache)@, files.deep_view()).0,
            r.deep_view() == spec_scan_claude(old(cache)@, files.deep_view()).1,
    {
        let ghost cache0 = cache@;
        let ghost fv = files.deep_view();
        let mut records: Vec<AgentRecord> = Vec::new();
        let mut i: usize = 0;
        while i < files.len()
            invariant
                i <= files.len(),
                cache@ == spec_scan_claude(cache0, fv.take(i as int)).0,
                records.deep_view() == spec_scan_claude(cache0, fv.take(i as int)).1,
            decreases files.len() - i,
        {
            proof {
                assert(fv.take(i + 1).drop_last() =~= fv.take(i as int));
                assert(fv.take(i + 1).last() == fv[i as int]);
            }
            let f = &files[i];
            let n = f.info.path.unicode_len();
            let start = crate::text::after_last(f.info.path.as_str(), '/');
            let name = f.info.path.as_str().substring_char(start, n);
            proof {
                assert(name@ == crate::text::spec_file_name(f.info.path@));
            }
            if !crate::text::str_starts_with(name, "agent") {
                match crate::cache::process_file(cache, AgentType::ClaudeCode, &f.info, &f.content) {
                    Some(rec) => {
                        let ghost prev = records.deep_view();
                        let ghost rv = rec@;
                        records.push(rec);
                        proof {
                            assert(records.deep_view() =~= prev.push(rv));
                        }
                    },
                    None => {
                        proof {
                            assert(false);
                        }
                    },
                }
            }
            i += 1;
        }
        proof {
            assert(fv.take(fv.len() as int) =~= fv);
        }
        records
    }
}

} // verus!
