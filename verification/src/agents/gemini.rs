//! Normalizer for the single-JSON-document chat format: usage is summed
//! per message across five subtotals, the public output figure aggregates
//! raw output with thoughts and tool tokens, and the grand total is
//! input + aggregated output + cached.

use vstd::prelude::*;
use crate::domain::{AgentType, AgentRecord, RecordView, TokenInfo, ParseError, sat_add64, add_sat};
use crate::json::{JsonValue, json_of, parse_json, spec_get, spec_get_str, spec_get_u64, get_u64};
use crate::scanner::{FileInfo, FileInfoView};
use crate::agents::{opt_str_view, spec_session_alias, take_session_alias};

verus! {

/// Running totals over a document's messages.
pub ghost struct GeminiAcc {
    pub input: u64,
    pub output: u64,
    pub cached: u64,
    pub thoughts: u64,
    pub tool: u64,
    pub tools: Seq<Seq<char>>,
}

pub open spec fn gemini_init() -> GeminiAcc {
    GeminiAcc { input: 0, output: 0, cached: 0, thoughts: 0, tool: 0, tools: Seq::empty() }
}

/// Adds an optionally present delta, saturating.
pub open spec fn spec_add_opt(cur: u64, v: Option<u64>) -> u64 {
    match v {
        Some(x) => sat_add64(cur, x),
        None => cur,
    }
}

/// The tool names one `toolCalls` entry contributes.
pub open spec fn spec_name_of_call(item: JsonValue) -> Seq<Seq<char>> {
    match spec_get_str(item, "name"@) {
        Some(n) => seq![n],
        None => Seq::empty(),
    }
}

pub open spec fn spec_names_of_calls(items: Seq<JsonValue>) -> Seq<Seq<char>>
    decreases items.len(),
{
    if items.len() == 0 {
        Seq::empty()
    } else {
        spec_names_of_calls(items.drop_last()) + spec_name_of_call(items.last())
    }
}

/// One message's effect on the running totals.
pub open spec fn gemini_message(acc: GeminiAcc, m: JsonValue) -> GeminiAcc {
    let acc1 = match spec_get(m, "tokens"@) {
        Some(t) => GeminiAcc {
            input: spec_add_opt(acc.input, spec_get_u64(t, "input"@)),
            output: spec_add_opt(acc.output, spec_get_u64(t, "output"@)),
            cached: spec_add_opt(acc.cached, spec_get_u64(t, "cached"@)),
            thoughts: spec_add_opt(acc.thoughts, spec_get_u64(t, "thoughts"@)),
            tool: spec_add_opt(acc.tool, spec_get_u64(t, "tool"@)),
            tools: acc.tools,
        },
        None => acc,
    };
    match spec_get(m, "toolCalls"@) {
        Some(c) => match c.spec_as_array() {
            Some(items) => GeminiAcc { tools: acc1.tools + spec_names_of_calls(items), ..acc1 },
            None => acc1,
        },
        None => acc1,
    }
}

pub open spec fn gemini_fold(msgs: Seq<JsonValue>) -> GeminiAcc
    decreases msgs.len(),
{
    if msgs.len() == 0 {
        gemini_init()
    } else {
        gemini_message(gemini_fold(msgs.drop_last()), msgs.last())
    }
}

/// The messages of a document: the `messages` array, or nothing.
pub open spec fn spec_gemini_messages(doc: JsonValue) -> Seq<JsonValue> {
    match spec_get(doc, "messages"@) {
        Some(c) => match c.spec_as_array() {
            Some(items) => items,
            None => Seq::empty(),
        },
        None => Seq::empty(),
    }
}

/// The token summary: absent exactly when both summed input and raw output
/// are zero. The reported output aggregates raw output, thoughts and tool
/// tokens; the total is input + aggregated output + cached.
pub open spec fn spec_gemini_tokens(acc: GeminiAcc) -> Option<TokenInfo> {
    if acc.input > 0 || acc.output > 0 {
        let agg = sat_add64(sat_add64(acc.output, acc.thoughts), acc.tool);
        Some(
            TokenInfo {
                input: acc.input,
                output: agg,
                cached: acc.cached,
                cache_creation: 0,
                reasoning: 0,
                total: sat_add64(sat_add64(acc.input, agg), acc.cached),
            },
        )
    } else {
        None
    }
}

/// The record a well-formed document yields.
pub open spec fn spec_gemini_record(info: FileInfoView, doc: JsonValue) -> RecordView {
    let acc = gemini_fold(spec_gemini_messages(doc));
    RecordView {
        agent_type: AgentType::Gemini,
        file_path: info.path,
        created_at: info.created_at,
        modified_at: info.modified_at,
        file_size: info.size,
        session_id: spec_session_alias(doc),
        tokens: spec_gemini_tokens(acc),
        tool_calls: acc.tools,
    }
}

/// What normalizing a file of this format yields: a record for a
/// well-formed document, an error (and no record) for anything else.
pub open spec fn spec_normalize_gemini(info: FileInfoView, content: Seq<u8>) -> Result<
    RecordView,
    ParseError,
> {
    match json_of(content) {
        Some(doc) => Ok(spec_gemini_record(info, doc)),
        None => Err(ParseError::MalformedDocument),
    }
}

/// Normalizes one file of this format. Fails exactly when the whole
/// document is malformed; within a well-formed document nothing fails.
pub fn normalize_gemini(info: &FileInfo, content: &Vec<u8>) -> (r: Result<
    AgentRecord,
    ParseError,
>)
    ensures
        match r {
            Ok(rec) => spec_normalize_gemini(info@, content@) == Ok::<RecordView, ParseError>(
                rec@,
            ),
            Err(e) => spec_normalize_gemini(info@, content@) == Err::<RecordView, ParseError>(e),
        },
{
    let doc = match parse_json(content) {
        Some(doc) => doc,
        None => {
            return Err(ParseError::MalformedDocument);
        },
    };
    let mut session_id: Option<String> = None;
    take_session_alias(&doc, &mut session_id);
    let mut input: u64 = 0;
    let mut output: u64 = 0;
    let mut cached: u64 = 0;
    let mut thoughts: u64 = 0;
    let mut tool: u64 = 0;
    let mut tools: Vec<String> = Vec::new();
    match doc.get("messages") {
        Some(c) => {
            match c.as_array() {
                Some(msgs) => {
                    let mut i: usize = 0;
                    while i < msgs.len()
                        invariant
                            i <= msgs.len(),
                            ({
                                let acc = gemini_fold(msgs@.take(i as int));
                                &&& input == acc.input
                                &&& output == acc.output
                                &&& cached == acc.cached
                                &&& thoughts == acc.thoughts
                                &&& tool == acc.tool
                                &&& tools.deep_view() == acc.tools
                            }),
                        decreases msgs.len() - i,
                    {
                        proof {
                            assert(msgs@.take(i + 1).drop_last() =~= msgs@.take(i as int));
                            assert(msgs@.take(i + 1).last() == msgs@[i as int]);
                        }
                        let m = &msgs[i];
                        match m.get("tokens") {
                            Some(t) => {
                                match get_u64(t, "input") {
                                    Some(x) => {
                                        input = add_sat(input, x);
                                    },
                                    None => {},
                                }
                                match get_u64(t, "output") {
                                    Some(x) => {
                                        output = add_sat(output, x);
                                    },
                                    None => {},
                                }
                                match get_u64(t, "cached") {
                                    Some(x) => {
                                        cached = add_sat(cached, x);
                                    },
                                    None => {},
                                }
                                match get_u64(t, "thoughts") {
                                    Some(x) => {
                                        thoughts = add_sat(thoughts, x);
                                    },
                                    None => {},
                                }
                                match get_u64(t, "tool") {
                                    Some(x) => {
                                        tool = add_sat(tool, x);
                                    },
                                    None => {},
                                }
                            },
                            None => {},
                        }
                        match m.get("toolCalls") {
                            Some(c2) => {
                                match c2.as_array() {
                                    Some(items) => {
                                        let ghost tools0 = tools.deep_view();
                                        let mut k: usize = 0;
                                        while k < items.len()
                                            invariant
                                                k <= items.len(),
                                                tools.deep_view() == tools0
                                                    + spec_names_of_calls(items@.take(k as int)),
                                            decreases items.len() - k,
                                        {
                                            proof {
                                                assert(items@.take(k + 1).drop_last()
                                                    =~= items@.take(k as int));
                                                assert(items@.take(k + 1).last()
                                                    == items@[k as int]);
                                            }
                                            let ghost prev = tools.deep_view();
                                            match crate::json::get_str(&items[k], "name") {
                                                Some(n) => {
                                                    tools.push(n.clone());
                                                    proof {
                                                        assert(tools.deep_view() =~= prev.push(
                                                            n@,
                                                        ));
                                                    }
                                                },
                                                None => {},
                                            }
                                            proof {
                                                assert(tools.deep_view() =~= tools0
                                                    + spec_names_of_calls(items@.take(k + 1)));
                                            }
                                            k += 1;
                                        }
                                        proof {
                                            assert(items@.take(items@.len() as int) =~= items@);
                                        }
                                    },
                                    None => {},
                                }
                            },
                            None => {},
                        }
                        i += 1;
                    }
                    proof {
                        assert(msgs@.take(msgs@.len() as int) =~= msgs@);
                        assert(msgs@ == spec_gemini_messages(doc));
                    }
                },
                None => {
                    proof {
                        assert(tools.deep_view() =~= Seq::<Seq<char>>::empty());
                    }
                },
            }
        },
        None => {
            proof {
                assert(tools.deep_view() =~= Seq::<Seq<char>>::empty());
            }
        },
    }
    let ghost accg = gemini_fold(spec_gemini_messages(doc));
    assert(input == accg.input && output == accg.output && cached == accg.cached
        && thoughts == accg.thoughts && tool == accg.tool && tools.deep_view() == accg.tools);
    let tokens = if input > 0 || output > 0 {
        let agg = add_sat(add_sat(output, thoughts), tool);
        let total = add_sat(add_sat(input, agg), cached);
        Some(
            TokenInfo {
                input,
                output: agg,
                cached,
                cache_creation: 0,
                reasoning: 0,
                total,
            },
        )
    } else {
        None
    };
    Ok(
        AgentRecord {
            agent_type: AgentType::Gemini,
            file_path: info.path.clone(),
            created_at: info.created_at,
            modified_at: info.modified_at,
            file_size: info.size,
            session_id,
            tokens,
            tool_calls: tools,
        },
    )
}

/// Scans this format's log directory; the walk and the reads are the
/// caller's, the scanner owns the root, the chat-file filter and the
/// per-file normalization.
#[derive(Debug)]
pub struct GeminiScanner {
    pub scanner: crate::scanner::FileScanner,
}

/// Whether a walked file is a chat transcript: only files under a `chats`
/// directory are normalized.
pub open spec fn spec_gemini_keeps(info: FileInfoView) -> bool {
    crate::text::spec_contains(info.path, "/chats/"@)
}

/// What one scan makes of the walked files: one record per chat file
/// whose document is well formed, in file order; a malformed file is
/// skipped, never an error for the scan.
pub open spec fn spec_scan_gemini(files: Seq<crate::scanner::ScannedFileView>) -> Seq<RecordView>
    decreases files.len(),
{
    if files.len() == 0 {
        Seq::empty()
    } else {
        let p = spec_scan_gemini(files.drop_last());
        let f = files.last();
        if spec_gemini_keeps(f.info) {
            match spec_normalize_gemini(f.info, f.content) {
                Ok(rv) => p.push(rv),
                Err(_) => p,
            }
        } else {
            p
        }
    }
}

impl GeminiScanner {
    pub fn new(home_dir: &str) -> (r: Self)
        ensures
            r.scanner.root@ == home_dir@ + "/.gemini/tmp"@,
    {
        let mut root = String::from_str(home_dir);
        root.append("/.gemini/tmp");
        GeminiScanner { scanner: crate::scanner::FileScanner::new(root) }
    }

    /// Normalizes every walked chat file, skipping malformed documents one
    /// by one.
    pub fn scan(&self, files: &Vec<crate::scanner::ScannedFile>) -> (r: Vec<AgentRecord>)
        ensures
            r.deep_view() == spec_scan_gemini(files.deep_view()),
    {
        let ghost fv = files.deep_view();
        let mut records: Vec<AgentRecord> = Vec::new();
        let mut i: usize = 0;
        while i < files.len()
            invariant
                i <= files.len(),
                records.deep_view() == spec_scan_gemini(fv.take(i as int)),
            decreases files.len() - i,
        {
            proof {
                assert(fv.take(i + 1).drop_last() =~= fv.take(i as int));
                assert(fv.take(i + 1).last() == fv[i as int]);
            }
            let f = &files[i];
            if crate::text::str_contains(f.info.path.as_str(), "/chats/") {
                match normalize_gemini(&f.info, &f.content) {
                    Ok(rec) => {
                        let ghost prev = records.deep_view();
                        let ghost rv = rec@;
                        records.push(rec);
                        proof {
                            assert(records.deep_view() =~= prev.push(rv));
                        }
                    },
                    Err(_) => {},
                }
            }
            i += 1;
        }
        proof {
            assert(fv.take(fv.len() as int) =~= fv);
        }
        records
    }
}

} // verus!
