//! One normalizer per supported tool, each turning a raw log file into the
//! common record.

pub mod claudecode;
pub mod codex;
pub mod gemini;

use vstd::prelude::*;
use crate::domain::{AgentType, AgentRecord, RecordView};
use crate::json::{JsonValue, spec_get, spec_get_str};
use crate::scanner::{FileInfo, FileInfoView};

verus! {

/// What the normalizer matching `agent` makes of a file: a record, or
/// nothing for a malformed single-document file and for the agent kind no
/// format belongs to.
pub open spec fn spec_normalize(
    agent: AgentType,
    info: FileInfoView,
    content: Seq<u8>,
) -> Option<RecordView> {
    match agent {
        AgentType::ClaudeCode => Some(claudecode::spec_normalize_claude(info, content)),
        AgentType::Codex => Some(codex::spec_normalize_codex(info, content)),
        AgentType::Gemini => match gemini::spec_normalize_gemini(info, content) {
            Ok(rv) => Some(rv),
            Err(_) => None,
        },
        AgentType::Codexia => None,
    }
}

/// Dispatches a file to the matching format normalizer.
pub fn normalize(agent: AgentType, info: &FileInfo, content: &Vec<u8>) -> (r: Option<AgentRecord>)
    ensures
        match r {
            Some(rec) => spec_normalize(agent, info@, content@) == Some(rec@),
            None => spec_normalize(agent, info@, content@) is None,
        },
{
    match agent {
        AgentType::ClaudeCode => Some(claudecode::normalize_claude(info, content)),
        AgentType::Codex => Some(codex::normalize_codex(info, content)),
        AgentType::Gemini => match gemini::normalize_gemini(info, content) {
            Ok(rec) => Some(rec),
            Err(_) => None,
        },
        AgentType::Codexia => None,
    }
}

/// Every record a normalizer yields is keyed by the file it came from: its
/// path and modification time are the scanned ones.
pub proof fn lemma_normalize_keys(agent: AgentType, info: FileInfoView, content: Seq<u8>)
    ensures
        match spec_normalize(agent, info, content) {
            Some(rv) => rv.file_path == info.path && rv.modified_at == info.modified_at,
            None => true,
        },
{
}

/// The character sequences of an optional string.
pub open spec fn opt_str_view(o: Option<String>) -> Option<Seq<char>> {
    match o {
        Some(s) => Some(s@),
        None => None,
    }
}

/// The session id an event object offers: the value under `sessionId`
/// where that member exists (even when it is not a string, in which case
/// nothing is offered), else the one under `session_id`.
pub open spec fn spec_session_alias(j: JsonValue) -> Option<Seq<char>> {
    match spec_get(j, "sessionId"@) {
        Some(v) => v.spec_as_str(),
        None => spec_get_str(j, "session_id"@),
    }
}

/// Takes the session id from `j` unless one is already set; the first value
/// found is never overwritten.
pub fn take_session_alias(j: &JsonValue, session_id: &mut Option<String>)
    ensures
        opt_str_view(*final(session_id)) == (match opt_str_view(*old(session_id)) {
            Some(s) => Some(s),
            None => spec_session_alias(*j),
        }),
{
    if session_id.is_none() {
        match j.get("sessionId") {
            Some(v) => {
                match v.as_str() {
                    Some(s) => {
                        *session_id = Some(s.clone());
                    },
                    None => {},
                }
            },
            None => {
                match crate::json::get_str(j, "session_id") {
                    Some(s) => {
                        *session_id = Some(s.clone());
                    },
                    None => {},
                }
            },
        }
    }
}

} // verus!
