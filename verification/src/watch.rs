//! The decision half of the change notifier: which filesystem events
//! become notifications, and for which agent. Watching directories and
//! delivering to subscribers is the caller's transport; this module owns
//! the path rules.

use vstd::prelude::*;
use crate::text::{spec_contains, str_contains};
use crate::scanner::{spec_has_extension, has_extension};

verus! {

/// A live update pushed to subscribers: a watched agent has a new or
/// changed log file.
#[derive(Debug)]
pub enum UpdateMessage {
    FileAdded { agent: String, file_path: String },
}

/// The agent label a path belongs to, by the directory conventions of the
/// watched roots; `None` for a path under no watched agent root.
pub open spec fn spec_detect_agent(path: Seq<char>) -> Option<Seq<char>> {
    if spec_contains(path, "/.claudecode/"@) {
        Some("ClaudeCode"@)
    } else if spec_contains(path, "/.gemini/"@) {
        Some("Gemini"@)
    } else if spec_contains(path, "/.codex/"@) {
        Some("Codex"@)
    } else {
        None
    }
}

/// Names the agent whose logs live at `path`, or nothing for a path that
/// falls under no watched agent root.
pub fn detect_agent_from_path(path: &String) -> (r: Option<String>)
    ensures
        match r {
            Some(s) => spec_detect_agent(path@) == Some(s@),
            None => spec_detect_agent(path@) is None,
        },
{
    if str_contains(path.as_str(), "/.claudecode/") {
        Some(String::from_str("ClaudeCode"))
    } else if str_contains(path.as_str(), "/.gemini/") {
        Some(String::from_str("Gemini"))
    } else if str_contains(path.as_str(), "/.codex/") {
        Some(String::from_str("Codex"))
    } else {
        None
    }
}

/// Whether one event path is notified: only create/modify events, only
/// log extensions, only paths under a watched agent root.
pub open spec fn spec_notifies(is_create_or_modify: bool, path: Seq<char>) -> bool {
    &&& is_create_or_modify
    &&& (spec_has_extension(path, "json"@) || spec_has_extension(path, "jsonl"@))
    &&& spec_detect_agent(path) is Some
}

/// The notifications one filesystem event yields: one per qualifying
/// path, in event order; every other path is dropped silently.
pub open spec fn spec_event_messages(
    is_create_or_modify: bool,
    paths: Seq<Seq<char>>,
) -> Seq<(Seq<char>, Seq<char>)>
    decreases paths.len(),
{
    if paths.len() == 0 {
        Seq::empty()
    } else {
        let p = spec_event_messages(is_create_or_modify, paths.drop_last());
        let path = paths.last();
        if spec_notifies(is_create_or_modify, path) {
            p.push((spec_detect_agent(path)->0, path))
        } else {
            p
        }
    }
}

impl UpdateMessage {
    pub open spec fn spec_pair(self) -> (Seq<char>, Seq<char>) {
        match self {
            UpdateMessage::FileAdded { agent, file_path } => (agent@, file_path@),
        }
    }
}

impl View for UpdateMessage {
    type V = (Seq<char>, Seq<char>);

    open spec fn view(&self) -> (Seq<char>, Seq<char>) {
        self.spec_pair()
    }
}

impl DeepView for UpdateMessage {
    type V = (Seq<char>, Seq<char>);

    open spec fn deep_view(&self) -> (Seq<char>, Seq<char>) {
        self.spec_pair()
    }
}

/// Turns one filesystem event — its kind reduced to whether it is a
/// create or modify — into the notifications to publish.
pub fn handle_event(is_create_or_modify: bool, paths: &Vec<String>) -> (r: Vec<UpdateMessage>)
    ensures
        r.deep_view() == spec_event_messages(is_create_or_modify, paths.deep_view()),
{
    let ghost pv = paths.deep_view();
    let mut msgs: Vec<UpdateMessage> = Vec::new();
    let mut i: usize = 0;
    assert(msgs.deep_view() =~= spec_event_messages(is_create_or_modify, pv.take(0)));
    while i < paths.len()
        invariant
            i <= paths.len(),
            msgs.deep_view() == spec_event_messages(is_create_or_modify, pv.take(i as int)),
        decreases paths.len() - i,
    {
        proof {
            assert(pv.take(i + 1).drop_last() =~= pv.take(i as int));
            assert(pv.take(i + 1).last() == pv[i as int]);
            assert(paths@[i as int]@ == pv[i as int]);
        }
        let path = &paths[i];
        if is_create_or_modify && (has_extension(path.as_str(), "json") || has_extension(
            path.as_str(),
            "jsonl",
        )) {
            match detect_agent_from_path(path) {
                Some(agent) => {
                    let ghost prev = msgs.deep_view();
                    let ghost m = (agent@, path@);
                    msgs.push(UpdateMessage::FileAdded { agent, file_path: path.clone() });
                    proof {
                        assert(msgs.deep_view() =~= prev.push(m));
                    }
                },
                None => {},
            }
        }
        i += 1;
    }
    proof {
        assert(pv.take(pv.len() as int) =~= pv);
    }
    msgs
}

} // verus!
