use agent_insights::domain::AgentType;
use agent_insights::watch::{UpdateMessage, detect_agent_from_path, handle_event};

#[test]
fn detect_agent_from_path_names_the_owning_agent() {
    assert_eq!(
        detect_agent_from_path(&"/home/u/.claudecode/projects/a/s.jsonl".to_string()).as_deref(),
        Some("ClaudeCode")
    );
    assert_eq!(
        detect_agent_from_path(&"/home/u/.gemini/tmp/x/chats/c.json".to_string()).as_deref(),
        Some("Gemini")
    );
    assert_eq!(
        detect_agent_from_path(&"/home/u/.codex/sessions/s.jsonl".to_string()).as_deref(),
        Some("Codex")
    );
    assert_eq!(detect_agent_from_path(&"/home/u/Documents/notes.json".to_string()), None);
}

#[test]
fn handle_event_notifies_matching_log_paths_only() {
    let paths = vec![
        "/home/u/.claudecode/projects/a/s.jsonl".to_string(),
        "/home/u/.claudecode/projects/a/readme.txt".to_string(),
        "/home/u/.gemini/tmp/x/chats/c.json".to_string(),
        "/home/u/elsewhere/d.json".to_string(),
    ];
    let msgs = handle_event(true, &paths);
    assert_eq!(msgs.len(), 2);
    let UpdateMessage::FileAdded { agent, file_path } = &msgs[0];
    assert_eq!(agent, "ClaudeCode");
    assert_eq!(file_path, "/home/u/.claudecode/projects/a/s.jsonl");
    let UpdateMessage::FileAdded { agent, file_path } = &msgs[1];
    assert_eq!(agent, "Gemini");
    assert_eq!(file_path, "/home/u/.gemini/tmp/x/chats/c.json");
}

#[test]
fn handle_event_ignores_other_event_kinds() {
    let paths = vec!["/home/u/.claudecode/projects/a/s.jsonl".to_string()];
    let msgs = handle_event(false, &paths);
    assert!(msgs.is_empty());
}

#[test]
fn labels_are_strings_callers_can_render() {
    assert_eq!(AgentType::ClaudeCode.label(), "ClaudeCode");
    assert_eq!(AgentType::Codex.label(), "Codex");
    assert_eq!(AgentType::Gemini.label(), "Gemini");
    assert_eq!(AgentType::Codexia.label(), "Codexia");
}
