use agent_insights::cache::{CacheDb, process_file};
use agent_insights::domain::{AgentType, Timestamp};
use agent_insights::scanner::{FileInfo, ScannedFile};

fn info_at(path: &str, msecs: i64) -> FileInfo {
    FileInfo {
        path: path.to_string(),
        created_at: Timestamp { secs: 1000, nanos: 0 },
        modified_at: Timestamp { secs: msecs, nanos: 0 },
        size: 10,
    }
}

fn claude_line(input: u64, output: u64) -> Vec<u8> {
    format!("{{\"usage\":{{\"input_tokens\":{},\"output_tokens\":{}}}}}\n", input, output)
        .into_bytes()
}

#[test]
fn lookup_hits_only_on_exact_modified_at() {
    let mut cache = CacheDb::new();
    let rec = process_file(&mut cache, AgentType::ClaudeCode, &info_at("/a.jsonl", 50), &claude_line(1, 2))
        .unwrap();
    assert_eq!(rec.tokens.unwrap().input, 1);
    let hit = cache.get_cached_record("/a.jsonl", Timestamp { secs: 50, nanos: 0 });
    assert!(hit.is_some());
    let stale = cache.get_cached_record("/a.jsonl", Timestamp { secs: 51, nanos: 0 });
    assert!(stale.is_none(), "a modified-at mismatch is a miss, never stale data");
    let nanos_differ = cache.get_cached_record("/a.jsonl", Timestamp { secs: 50, nanos: 1 });
    assert!(nanos_differ.is_none());
    let other = cache.get_cached_record("/b.jsonl", Timestamp { secs: 50, nanos: 0 });
    assert!(other.is_none());
}

#[test]
fn unchanged_file_reuses_cached_record_verbatim() {
    let mut cache = CacheDb::new();
    let first =
        process_file(&mut cache, AgentType::ClaudeCode, &info_at("/a.jsonl", 50), &claude_line(10, 5))
            .unwrap();
    // Same path and modified_at, different bytes: the normalizer must not
    // run again, so the first record comes back unchanged.
    let second =
        process_file(&mut cache, AgentType::ClaudeCode, &info_at("/a.jsonl", 50), &claude_line(99, 99))
            .unwrap();
    assert_eq!(second.tokens.unwrap().input, first.tokens.unwrap().input);
    assert_eq!(second.tokens.unwrap().total, 15);
}

#[test]
fn changed_modified_at_forces_reparse() {
    let mut cache = CacheDb::new();
    let _ =
        process_file(&mut cache, AgentType::ClaudeCode, &info_at("/a.jsonl", 50), &claude_line(10, 5));
    // Identical content, new modified_at: parsed afresh all the same.
    let second =
        process_file(&mut cache, AgentType::ClaudeCode, &info_at("/a.jsonl", 60), &claude_line(20, 1))
            .unwrap();
    assert_eq!(second.tokens.unwrap().input, 20);
    let rehit = cache.get_cached_record("/a.jsonl", Timestamp { secs: 60, nanos: 0 }).unwrap();
    assert_eq!(rehit.tokens.unwrap().input, 20);
    assert!(cache.get_cached_record("/a.jsonl", Timestamp { secs: 50, nanos: 0 }).is_none());
}

#[test]
fn cache_stats_count_entries_by_agent() {
    let mut cache = CacheDb::new();
    let _ = process_file(&mut cache, AgentType::ClaudeCode, &info_at("/a.jsonl", 1), &claude_line(1, 1));
    let _ = process_file(&mut cache, AgentType::ClaudeCode, &info_at("/b.jsonl", 1), &claude_line(1, 1));
    let _ = process_file(&mut cache, AgentType::Codex, &info_at("/c.jsonl", 1), &b"{}\n".to_vec());
    let stats = cache.get_cache_stats();
    assert_eq!(stats.total_entries, 3);
    let pairs: Vec<(String, usize)> = stats.entries_by_agent;
    assert_eq!(pairs.len(), 2);
    assert_eq!(pairs[0].0, "ClaudeCode");
    assert_eq!(pairs[0].1, 2);
    assert_eq!(pairs[1].0, "Codex");
    assert_eq!(pairs[1].1, 1);
}

#[test]
fn store_overwrites_entry_for_same_path() {
    let mut cache = CacheDb::new();
    let _ =
        process_file(&mut cache, AgentType::ClaudeCode, &info_at("/a.jsonl", 50), &claude_line(1, 1));
    let _ =
        process_file(&mut cache, AgentType::ClaudeCode, &info_at("/a.jsonl", 60), &claude_line(2, 2));
    let stats = cache.get_cache_stats();
    assert_eq!(stats.total_entries, 1, "an upsert supersedes the prior entry for the path");
}

#[test]
fn claude_scan_skips_agent_marker_files_and_uses_cache() {
    let scanner = agent_insights::agents::claudecode::ClaudeScanner::new("/h");
    let mut cache = CacheDb::new();
    let files = vec![
        ScannedFile { info: info_at("/h/.claudecode/projects/p/agent-x.jsonl", 1), content: claude_line(9, 9) },
        ScannedFile { info: info_at("/h/.claudecode/projects/p/s1.jsonl", 1), content: claude_line(1, 2) },
    ];
    let records = scanner.scan(&mut cache, &files);
    assert_eq!(records.len(), 1, "agent-marker files are excluded by the scan");
    assert_eq!(records[0].tokens.unwrap().input, 1);
    assert_eq!(cache.get_cache_stats().total_entries, 1);
}

#[test]
fn gemini_scan_keeps_only_chat_files_and_skips_malformed() {
    let scanner = agent_insights::agents::gemini::GeminiScanner::new("/h");
    let doc = b"{\"messages\":[{\"tokens\":{\"input\":1,\"output\":1}}]}".to_vec();
    let files = vec![
        ScannedFile { info: info_at("/h/.gemini/tmp/x/chats/a.json", 1), content: doc.clone() },
        ScannedFile { info: info_at("/h/.gemini/tmp/x/other/b.json", 1), content: doc.clone() },
        ScannedFile { info: info_at("/h/.gemini/tmp/x/chats/bad.json", 1), content: b"nope".to_vec() },
    ];
    let records = scanner.scan(&files);
    assert_eq!(records.len(), 1, "non-chat and malformed files contribute nothing");
    assert!(matches!(records[0].agent_type, AgentType::Gemini));
}

#[test]
fn codex_scan_normalizes_every_file() {
    let scanner = agent_insights::agents::codex::CodexScanner::new("/h");
    let files = vec![
        ScannedFile { info: info_at("/h/.codex/sessions/a.jsonl", 1), content: b"junk\n".to_vec() },
        ScannedFile { info: info_at("/h/.codex/sessions/b.jsonl", 1), content: b"\n".to_vec() },
    ];
    let records = scanner.scan(&files);
    assert_eq!(records.len(), 2);
    assert!(records.iter().all(|r| r.tokens.is_none()));
}

#[test]
fn filter_by_extension_follows_path_extension_rules() {
    let scanner = agent_insights::scanner::FileScanner::new("/root".to_string());
    let files = vec![
        info_at("/root/a/b.jsonl", 1),
        info_at("/root/a/.jsonl", 1),
        info_at("/root/a/c.json", 1),
        info_at("/root/a/noext", 1),
        info_at("/root/a/d.tar.jsonl", 1),
    ];
    let kept = scanner.scan_jsonl_files(files);
    let paths: Vec<&str> = kept.iter().map(|f| f.path.as_str()).collect();
    assert_eq!(paths, vec!["/root/a/b.jsonl", "/root/a/d.tar.jsonl"]);
}
