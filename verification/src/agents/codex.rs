//! Normalizer for the line-delimited format with typed envelopes whose
//! usage numbers are cumulative snapshots: each `token_count` payload
//! replaces the previous one (last snapshot wins), and the file's own
//! reported grand total is trusted verbatim.

use vstd::prelude::*;
use crate::domain::{AgentType, AgentRecord, RecordView, TokenInfo};
use crate::json::{
    JsonValue, json_of, parse_json, spec_get, spec_get_str, spec_get_u64, get_u64, str_eq,
};
use crate::scanner::{FileInfo, FileInfoView};
use crate::text::{spec_lines, split_lines};
use crate::agents::opt_str_view;

verus! {

/// Running state of one pass over a file's lines.
pub ghost struct CodexAcc {
    pub session_id: Option<Seq<char>>,
    pub input: u64,
    pub cached_input: u64,
    pub output: u64,
    pub reasoning: u64,
    pub total: u64,
    pub tools: Seq<Seq<char>>,
}

pub open spec fn codex_init() -> CodexAcc {
    CodexAcc {
        session_id: None,
        input: 0,
        cached_input: 0,
        output: 0,
        reasoning: 0,
        total: 0,
        tools: Seq::empty(),
    }
}

/// Replaces the current value where a snapshot carries the field.
pub open spec fn spec_replace(cur: u64, v: Option<u64>) -> u64 {
    match v {
        Some(x) => x,
        None => cur,
    }
}

/// One event's effect on the running state.
pub open spec fn codex_event(acc: CodexAcc, j: JsonValue) -> CodexAcc {
    let et = spec_get_str(j, "type"@);
    let acc1 = match spec_get(j, "payload"@) {
        Some(pay) => {
            let acc_u = if et == Some("event_msg"@) && spec_get_str(pay, "type"@) == Some(
                "token_count"@,
            ) {
                match spec_get(pay, "info"@) {
                    Some(info) => match spec_get(info, "total_token_usage"@) {
                        Some(u) => CodexAcc {
                            session_id: acc.session_id,
                            input: spec_replace(acc.input, spec_get_u64(u, "input_tokens"@)),
                            cached_input: spec_replace(
                                acc.cached_input,
                                spec_get_u64(u, "cached_input_tokens"@),
                            ),
                            output: spec_replace(acc.output, spec_get_u64(u, "output_tokens"@)),
                            reasoning: spec_replace(
                                acc.reasoning,
                                spec_get_u64(u, "reasoning_output_tokens"@),
                            ),
                            total: spec_replace(acc.total, spec_get_u64(u, "total_tokens"@)),
                            tools: acc.tools,
                        },
                        None => acc,
                    },
                    None => acc,
                }
            } else {
                acc
            };
            if et == Some("response_item"@) && spec_get_str(pay, "type"@) == Some(
                "custom_tool_call"@,
            ) {
                match spec_get_str(pay, "name"@) {
                    Some(n) => CodexAcc { tools: acc_u.tools.push(n), ..acc_u },
                    None => acc_u,
                }
            } else {
                acc_u
            }
        },
        None => acc,
    };
    if acc1.session_id is None && et == Some("session_meta"@) {
        match spec_get(j, "payload"@) {
            Some(pay) => match spec_get_str(pay, "id"@) {
                Some(s) => CodexAcc { session_id: Some(s), ..acc1 },
                None => acc1,
            },
            None => acc1,
        }
    } else {
        acc1
    }
}

/// One line's effect; a malformed line contributes nothing.
pub open spec fn codex_line(acc: CodexAcc, line: Seq<u8>) -> CodexAcc {
    match json_of(line) {
        Some(j) => codex_event(acc, j),
        None => acc,
    }
}

pub open spec fn codex_fold(lines: Seq<Seq<u8>>) -> CodexAcc
    decreases lines.len(),
{
    if lines.len() == 0 {
        codex_init()
    } else {
        codex_line(codex_fold(lines.drop_last()), lines.last())
    }
}

/// The token summary: absent exactly when both latest input and output
/// snapshots are zero; the grand total is the file's own reported one.
pub open spec fn spec_codex_tokens(acc: CodexAcc) -> Option<TokenInfo> {
    if acc.input > 0 || acc.output > 0 {
        Some(
            TokenInfo {
                input: acc.input,
                output: acc.output,
                cached: acc.cached_input,
                cache_creation: 0,
                reasoning: acc.reasoning,
                total: acc.total,
            },
        )
    } else {
        None
    }
}

/// The record this normalizer produces for a file with the given metadata
/// and raw content.
pub open spec fn spec_normalize_codex(info: FileInfoView, content: Seq<u8>) -> RecordView {
    let acc = codex_fold(spec_lines(content));
    RecordView {
        agent_type: AgentType::Codex,
        file_path: info.path,
        created_at: info.created_at,
        modified_at: info.modified_at,
        file_size: info.size,
        session_id: acc.session_id,
        tokens: spec_codex_tokens(acc),
        tool_calls: acc.tools,
    }
}

/// Applies one parsed event to the running state.
fn codex_apply(
    j: &JsonValue,
    session_id: &mut Option<String>,
    input: &mut u64,
    cached_input: &mut u64,
    output: &mut u64,
    reasoning: &mut u64,
    total: &mut u64,
    tools: &mut Vec<String>,
)
    ensures
        ({
            let acc = codex_event(
                CodexAcc {
                    session_id: opt_str_view(*old(session_id)),
                    input: *old(input),
                    cached_input: *old(cached_input),
                    output: *old(output),
                    reasoning: *old(reasoning),
                    total: *old(total),
                    tools: old(tools).deep_view(),
                },
                *j,
            );
            &&& opt_str_view(*final(session_id)) == acc.session_id
            &&& *final(input) == acc.input
            &&& *final(cached_input) == acc.cached_input
            &&& *final(output) == acc.output
            &&& *final(reasoning) == acc.reasoning
            &&& *final(total) == acc.total
            &&& final(tools).deep_view() == acc.tools
        }),
{
    let et = match j.get("type") {
        Some(t) => t.as_str(),
        None => None,
    };
    match j.get("payload") {
        Some(pay) => {
            let is_event_msg = match et {
                Some(e) => str_eq(e.as_str(), "event_msg"),
                None => false,
            };
            let pt = match pay.get("type") {
                Some(t) => t.as_str(),
                None => None,
            };
            if is_event_msg {
                let is_token_count = match pt {
                    Some(p) => str_eq(p.as_str(), "token_count"),
                    None => false,
                };
                if is_token_count {
                    match pay.get("info") {
                        Some(info) => {
                            match info.get("total_token_usage") {
                                Some(u) => {
                                    match get_u64(u, "input_tokens") {
                                        Some(x) => {
                                            *input = x;
                                        },
                                        None => {},
                                    }
                                    match get_u64(u, "cached_input_tokens") {
                                        Some(x) => {
                                            *cached_input = x;
                                        },
                                        None => {},
                                    }
                                    match get_u64(u, "output_tokens") {
                                        Some(x) => {
                                            *output = x;
                                        },
                                        None => {},
                                    }
                                    match get_u64(u, "reasoning_output_tokens") {
                                        Some(x) => {
                                            *reasoning = x;
                                        },
                                        None => {},
                                    }
                                    match get_u64(u, "total_tokens") {
                                        Some(x) => {
                                            *total = x;
                                        },
                                        None => {},
                                    }
                                },
                                None => {},
                            }
                        },
                        None => {},
                    }
                }
            }
            let is_response_item = match et {
                Some(e) => str_eq(e.as_str(), "response_item"),
                None => false,
            };
            if is_response_item {
                let is_tool_call = match pt {
                    Some(p) => str_eq(p.as_str(), "custom_tool_call"),
                    None => false,
                };
                if is_tool_call {
                    match crate::json::get_str(pay, "name") {
                        Some(n) => {
                            let ghost prev = tools.deep_view();
                            tools.push(n.clone());
                            proof {
                                assert(tools.deep_view() =~= prev.push(n@));
                            }
                        },
                        None => {},
                    }
                }
            }
        },
        None => {},
    }
    if session_id.is_none() {
        let is_session_meta = match et {
            Some(e) => str_eq(e.as_str(), "session_meta"),
            None => false,
        };
        if is_session_meta {
            match j.get("payload") {
                Some(pay) => {
                    match crate::json::get_str(pay, "id") {
                        Some(s) => {
                            *session_id = Some(s.clone());
                        },
                        None => {},
                    }
                },
                None => {},
            }
        }
    }
}

/// Normalizes one file of this format; from raw bytes on it always
/// succeeds, malformed lines being skipped one by one.
pub fn normalize_codex(info: &FileInfo, content: &Vec<u8>) -> (r: AgentRecord)
    ensures
        r@ == spec_normalize_codex(info@, content@),
{
    let lines = split_lines(content);
    let ghost lv = lines.deep_view();
    let mut session_id: Option<String> = None;
    let mut input: u64 = 0;
    let mut cached_input: u64 = 0;
    let mut output: u64 = 0;
    let mut reasoning: u64 = 0;
    let mut total: u64 = 0;
    let mut tools: Vec<String> = Vec::new();
    let mut i: usize = 0;
    while i < lines.len()
        invariant
            i <= lines.len(),
            ({
                let acc = codex_fold(lv.take(i as int));
                &&& opt_str_view(session_id) == acc.session_id
                &&& input == acc.input
                &&& cached_input == acc.cached_input
                &&& output == acc.output
                &&& reasoning == acc.reasoning
                &&& total == acc.total
                &&& tools.deep_view() == acc.tools
            }),
        decreases lines.len() - i,
    {
        proof {
            assert(lv.take(i + 1).drop_last() =~= lv.take(i as int));
            assert(lv.take(i + 1).last() == lv[i as int]);
            assert(lines@[i as int]@ == lv[i as int]);
        }
        match parse_json(&lines[i]) {
            Some(j) => {
                codex_apply(
                    &j,
                    &mut session_id,
                    &mut input,
                    &mut cached_input,
                    &mut output,
                    &mut reasoning,
                    &mut total,
                    &mut tools,
                );
            },
            None => {},
        }
        i += 1;
    }
    proof {
        assert(lv.take(lv.len() as int) =~= lv);
    }
    let tokens = if input > 0 || output > 0 {
        Some(
            TokenInfo {
                input,
                output,
                cached: cached_input,
                cache_creation: 0,
                reasoning,
                total,
            },
        )
    } else {
        None
    };
    AgentRecord {
        agent_type: AgentType::Codex,
        file_path: info.path.clone(),
        created_at: info.created_at,
        modified_at: info.modified_at,
        file_size: info.size,
        session_id,
        tokens,
        tool_calls: tools,
    }
}

/// Scans this format's log directory; the walk and the reads are the
/// caller's, the scanner owns the root and the per-file normalization.
#[derive(Debug)]
pub struct CodexScanner {
    pub scanner: crate::scanner::FileScanner,
}

/// What one scan makes of the walked files: one record per file, in file
/// order.
pub open spec fn spec_scan_codex(files: Seq<crate::scanner::ScannedFileView>) -> Seq<RecordView>
    decreases files.len(),
{
    if files.len() == 0 {
        Seq::empty()
    } else {
        spec_scan_codex(files.drop_last()).push(
            spec_normalize_codex(files.last().info, files.last().content),
        )
    }
}

impl CodexScanner {
    pub fn new(home_dir: &str) -> (r: Self)
        ensures
            r.scanner.root@ == home_dir@ + "/.codex"@,
    {
        let mut root = String::from_str(home_dir);
        root.append("/.codex");
        CodexScanner { scanner: crate::scanner::FileScanner::new(root) }
    }

    /// Normalizes every walked file; a file's bad lines are skipped inside
    /// the normalizer, so no file is lost.
    pub fn scan(&self, files: &Vec<crate::scanner::ScannedFile>) -> (r: Vec<AgentRecord>)
        ensures
            r.deep_view() == spec_scan_codex(files.deep_view()),
    {
        let ghost fv = files.deep_view();
        let mut records: Vec<AgentRecord> = Vec::new();
        let mut i: usize = 0;
        while i < files.len()
            invariant
                i <= files.len(),
                records.deep_view() == spec_scan_codex(fv.take(i as int)),
            decreases files.len() - i,
        {
            proof {
                assert(fv.take(i + 1).drop_last() =~= fv.take(i as int));
                assert(fv.take(i + 1).last() == fv[i as int]);
            }
            let f = &files[i];
            let rec = normalize_codex(&f.info, &f.content);
            let ghost prev = records.deep_view();
            let ghost rv = rec@;
            records.push(rec);
            proof {
                assert(records.deep_view() =~= prev.push(rv));
            }
            i += 1;
        }
        proof {
            assert(fv.take(fv.len() as int) =~= fv);
        }
        records
    }
}

} // verus!
