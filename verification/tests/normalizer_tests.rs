use agent_insights::agents::claudecode::{ClaudeScanner, normalize_claude};
use agent_insights::agents::codex::{CodexScanner, normalize_codex};
use agent_insights::agents::gemini::{GeminiScanner, normalize_gemini};
use agent_insights::domain::{AgentType, ParseError, Timestamp};
use agent_insights::scanner::FileInfo;

fn info(path: &str, secs: i64, size: u64) -> FileInfo {
    FileInfo {
        path: path.to_string(),
        created_at: Timestamp { secs, nanos: 0 },
        modified_at: Timestamp { secs: secs + 5, nanos: 7 },
        size,
    }
}

#[test]
fn claude_sums_deltas_and_skips_malformed_lines() {
    let content = b"{\"usage\":{\"input_tokens\":10,\"output_tokens\":5}}\n\
{\"usage\":{\"input_tokens\":20,\"output_tokens\":0}}\n\
this line is not json\n\
{\"usage\":{\"input_tokens\":5,\"output_tokens\":5}}\n"
        .to_vec();
    let rec = normalize_claude(&info("/h/.claudecode/projects/s.jsonl", 86400, 123), &content);
    let t = rec.tokens.expect("usage was reported");
    assert_eq!(t.input, 35);
    assert_eq!(t.output, 10);
    assert_eq!(t.total, 45);
    assert!(matches!(rec.agent_type, AgentType::ClaudeCode));
    assert_eq!(rec.file_size, 123);
}

#[test]
fn claude_reads_nested_usage_and_cache_fields() {
    let content = b"{\"message\":{\"usage\":{\"input_tokens\":1,\"output_tokens\":2,\"cache_read_input_tokens\":3,\"cache_creation_input_tokens\":4}}}\n".to_vec();
    let rec = normalize_claude(&info("/h/.claudecode/projects/s.jsonl", 0, 1), &content);
    let t = rec.tokens.unwrap();
    assert_eq!(t.input, 1);
    assert_eq!(t.output, 2);
    assert_eq!(t.cached, 3);
    assert_eq!(t.cache_creation, 4);
    assert_eq!(t.total, 10);
    assert_eq!(t.reasoning, 0);
}

#[test]
fn claude_session_id_first_value_wins() {
    let content = b"{\"sessionId\":\"first\"}\n{\"sessionId\":\"second\"}\n".to_vec();
    let rec = normalize_claude(&info("/p.jsonl", 0, 1), &content);
    assert_eq!(rec.session_id.as_deref(), Some("first"));
}

#[test]
fn claude_session_id_alias_used_when_primary_absent() {
    let content = b"{\"session_id\":\"via-alias\"}\n".to_vec();
    let rec = normalize_claude(&info("/p.jsonl", 0, 1), &content);
    assert_eq!(rec.session_id.as_deref(), Some("via-alias"));
}

#[test]
fn claude_tool_calls_keep_order_and_duplicates() {
    let content = b"{\"message\":{\"content\":[{\"type\":\"tool_use\",\"name\":\"Bash\"},{\"type\":\"text\"},{\"type\":\"tool_use\",\"name\":\"Read\"}]}}\n\
{\"message\":{\"content\":[{\"type\":\"tool_use\",\"name\":\"Bash\"}]}}\n"
        .to_vec();
    let rec = normalize_claude(&info("/p.jsonl", 0, 1), &content);
    assert_eq!(rec.tool_calls, vec!["Bash", "Read", "Bash"]);
}

#[test]
fn claude_tokens_absent_when_no_usage_signal() {
    let content = b"{\"sessionId\":\"s\"}\n\n".to_vec();
    let rec = normalize_claude(&info("/p.jsonl", 0, 1), &content);
    assert!(rec.tokens.is_none());
}

#[test]
fn codex_last_snapshot_wins() {
    let content = b"{\"type\":\"event_msg\",\"payload\":{\"type\":\"token_count\",\"info\":{\"total_token_usage\":{\"input_tokens\":60,\"output_tokens\":40,\"total_tokens\":100}}}}\n\
{\"type\":\"event_msg\",\"payload\":{\"type\":\"token_count\",\"info\":{\"total_token_usage\":{\"input_tokens\":150,\"output_tokens\":100,\"total_tokens\":250}}}}\n"
        .to_vec();
    let rec = normalize_codex(&info("/h/.codex/sessions/s.jsonl", 0, 9), &content);
    let t = rec.tokens.unwrap();
    assert_eq!(t.total, 250, "cumulative snapshots replace, never add");
    assert_eq!(t.input, 150);
    assert_eq!(t.output, 100);
}

#[test]
fn codex_reads_session_meta_reasoning_and_tool_calls() {
    let content = b"{\"type\":\"session_meta\",\"payload\":{\"id\":\"sess-9\"}}\n\
{\"type\":\"response_item\",\"payload\":{\"type\":\"custom_tool_call\",\"name\":\"shell\"}}\n\
{\"type\":\"event_msg\",\"payload\":{\"type\":\"token_count\",\"info\":{\"total_token_usage\":{\"input_tokens\":5,\"cached_input_tokens\":2,\"output_tokens\":3,\"reasoning_output_tokens\":1,\"total_tokens\":10}}}}\n"
        .to_vec();
    let rec = normalize_codex(&info("/p.jsonl", 0, 1), &content);
    assert_eq!(rec.session_id.as_deref(), Some("sess-9"));
    assert_eq!(rec.tool_calls, vec!["shell"]);
    let t = rec.tokens.unwrap();
    assert_eq!(t.cached, 2);
    assert_eq!(t.reasoning, 1);
    assert_eq!(t.cache_creation, 0);
}

#[test]
fn codex_malformed_lines_are_skipped() {
    let content = b"garbage\n{\"type\":\"event_msg\",\"payload\":{\"type\":\"token_count\",\"info\":{\"total_token_usage\":{\"input_tokens\":1,\"output_tokens\":1,\"total_tokens\":2}}}}\n{{{\n".to_vec();
    let rec = normalize_codex(&info("/p.jsonl", 0, 1), &content);
    assert_eq!(rec.tokens.unwrap().total, 2);
}

#[test]
fn gemini_aggregates_output_with_thoughts_and_tool() {
    let content = b"{\"sessionId\":\"g1\",\"messages\":[{\"tokens\":{\"input\":10,\"output\":5,\"cached\":7,\"thoughts\":3,\"tool\":2}},{\"tokens\":{\"input\":1},\"toolCalls\":[{\"name\":\"search\"},{\"name\":\"fetch\"}]}]}".to_vec();
    let rec = normalize_gemini(&info("/h/.gemini/tmp/x/chats/c.json", 0, 4), &content).unwrap();
    assert_eq!(rec.session_id.as_deref(), Some("g1"));
    let t = rec.tokens.unwrap();
    assert_eq!(t.input, 11);
    assert_eq!(t.output, 10, "output aggregates raw output, thoughts and tool tokens");
    assert_eq!(t.cached, 7);
    assert_eq!(t.total, 28, "total is input + aggregated output + cached");
    assert_eq!(rec.tool_calls, vec!["search", "fetch"]);
}

#[test]
fn gemini_malformed_document_is_an_error() {
    let content = b"{ not json at all".to_vec();
    let r = normalize_gemini(&info("/p.json", 0, 1), &content);
    assert!(matches!(r, Err(ParseError::MalformedDocument)));
}

#[test]
fn gemini_ignores_numbers_that_are_not_u64() {
    let content =
        b"{\"messages\":[{\"tokens\":{\"input\":-5,\"output\":2.5}},{\"tokens\":{\"input\":3,\"output\":4}}]}"
            .to_vec();
    let rec = normalize_gemini(&info("/p.json", 0, 1), &content).unwrap();
    let t = rec.tokens.unwrap();
    assert_eq!(t.input, 3);
    assert_eq!(t.output, 4);
}

#[test]
fn scanner_roots_follow_home_directory() {
    let c = ClaudeScanner::new("/home/u");
    assert_eq!(c.scanner.root, "/home/u/.claudecode/projects");
    let x = CodexScanner::new("/home/u");
    assert_eq!(x.scanner.root, "/home/u/.codex");
    let g = GeminiScanner::new("/home/u");
    assert_eq!(g.scanner.root, "/home/u/.gemini/tmp");
}
