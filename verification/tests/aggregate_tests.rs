use agent_insights::aggregate::AggregationService;
use agent_insights::domain::{AgentRecord, AgentType, TokenInfo, Timestamp};
use agent_insights::heatmap::HeatmapData;

const DAY: i64 = 86400;

fn record(agent: AgentType, path: &str, day: i64, size: u64, tokens: Option<TokenInfo>) -> AgentRecord {
    AgentRecord {
        agent_type: agent,
        file_path: path.to_string(),
        created_at: Timestamp { secs: day * DAY + 3600, nanos: 0 },
        modified_at: Timestamp { secs: day * DAY + 7200, nanos: 0 },
        file_size: size,
        session_id: None,
        tokens,
        tool_calls: Vec::new(),
    }
}

fn tokens(input: u64, output: u64, cached: u64, cache_creation: u64, reasoning: u64, total: u64) -> TokenInfo {
    TokenInfo { input, output, cached, cache_creation, reasoning, total }
}

#[test]
fn totals_match_cardinality_and_size_sum() {
    let records = vec![
        record(AgentType::ClaudeCode, "/a", 10, 100, None),
        record(AgentType::ClaudeCode, "/b", 10, 50, None),
        record(AgentType::ClaudeCode, "/c", 12, 25, None),
    ];
    let h = AggregationService::aggregate_by_date(records);
    assert_eq!(h.total_files, 3);
    assert_eq!(h.total_size, 175);
    assert_eq!(h.max_count, 2);
    assert_eq!(h.data.len(), 2);
    assert_eq!(h.data[0].date, 10);
    assert_eq!(h.data[0].count, 2);
    assert_eq!(h.data[0].size, 150);
    assert_eq!(h.data[1].date, 12);
    assert_eq!(h.data[1].count, 1);
}

#[test]
fn day_buckets_come_out_date_ordered() {
    let records = vec![
        record(AgentType::ClaudeCode, "/a", 30, 1, None),
        record(AgentType::ClaudeCode, "/b", 10, 1, None),
        record(AgentType::ClaudeCode, "/c", 20, 1, None),
    ];
    let h = AggregationService::aggregate_by_date(records);
    let dates: Vec<i64> = h.data.iter().map(|d| d.date).collect();
    assert_eq!(dates, vec![10, 20, 30]);
}

#[test]
fn api_total_agents_sum_reported_totals() {
    let records = vec![
        record(AgentType::Codex, "/a", 1, 1, Some(tokens(60, 40, 0, 0, 0, 250))),
        record(AgentType::Codex, "/b", 1, 1, Some(tokens(10, 5, 0, 0, 0, 100))),
    ];
    let h = AggregationService::aggregate_by_date(records);
    assert_eq!(h.token_stats.total_tokens, 350, "the reported totals are trusted verbatim");
    assert_eq!(h.token_stats.input_tokens, 70);
    assert_eq!(h.token_stats.output_tokens, 45);
    assert_eq!(h.agent, "Codex");
}

#[test]
fn derived_total_agents_sum_the_four_subtotals() {
    let records = vec![
        record(AgentType::ClaudeCode, "/a", 1, 1, Some(tokens(10, 5, 3, 2, 0, 20))),
        record(AgentType::ClaudeCode, "/b", 1, 1, Some(tokens(1, 1, 1, 1, 0, 4))),
    ];
    let h = AggregationService::aggregate_by_date(records);
    assert_eq!(h.token_stats.total_tokens, 11 + 6 + 4 + 3);
    assert_eq!(h.token_stats.cache_creation_tokens, 3);
    assert_eq!(h.token_stats.cache_read_tokens, 4);
}

#[test]
fn reasoning_tokens_reported_only_when_present() {
    let with = vec![record(AgentType::Codex, "/a", 1, 1, Some(tokens(1, 1, 0, 0, 7, 9)))];
    let h = AggregationService::aggregate_by_date(with);
    assert_eq!(h.token_stats.reasoning_tokens, Some(7));

    let zero = vec![record(AgentType::Codex, "/a", 1, 1, Some(tokens(1, 1, 0, 0, 0, 2)))];
    let h = AggregationService::aggregate_by_date(zero);
    assert_eq!(h.token_stats.reasoning_tokens, None, "absent, not zero");

    let derived = vec![record(AgentType::ClaudeCode, "/a", 1, 1, Some(tokens(1, 1, 0, 0, 5, 2)))];
    let h = AggregationService::aggregate_by_date(derived);
    assert_eq!(h.token_stats.reasoning_tokens, None);
}

#[test]
fn tool_histogram_sorted_by_count_descending_ties_first_seen() {
    let mut a = record(AgentType::ClaudeCode, "/a", 1, 1, None);
    a.tool_calls = vec!["Read".to_string(), "Bash".to_string(), "Bash".to_string()];
    let mut b = record(AgentType::ClaudeCode, "/b", 1, 1, None);
    b.tool_calls = vec!["Edit".to_string(), "Bash".to_string()];
    let h = AggregationService::aggregate_by_date(vec![a, b]);
    let names: Vec<&str> = h.tool_calls.iter().map(|t| t.tool_name.as_str()).collect();
    let counts: Vec<usize> = h.tool_calls.iter().map(|t| t.count).collect();
    assert_eq!(names, vec!["Bash", "Read", "Edit"]);
    assert_eq!(counts, vec![3, 1, 1]);
}

#[test]
fn empty_record_set_yields_empty_heatmap_not_error() {
    let h = AggregationService::aggregate_by_date(Vec::new());
    assert_eq!(h.agent, "Unknown");
    assert_eq!(h.data.len(), 0);
    assert_eq!(h.total_files, 0);
    assert_eq!(h.total_size, 0);
    assert_eq!(h.max_count, 0);
    assert_eq!(h.token_stats.total_tokens, 0);
    assert_eq!(h.token_stats.reasoning_tokens, None);
}

fn heatmaps_equal(a: &HeatmapData, b: &HeatmapData) -> bool {
    a.agent == b.agent && a.data == b.data && a.max_count == b.max_count
        && a.total_files == b.total_files && a.total_size == b.total_size
        && a.tool_calls.len() == b.tool_calls.len()
        && a.tool_calls.iter().zip(b.tool_calls.iter()).all(|(x, y)| {
            x.tool_name == y.tool_name && x.count == y.count
        }) && a.token_stats == b.token_stats
}

#[test]
fn aggregating_twice_yields_identical_results() {
    let make = || {
        vec![
            record(AgentType::Gemini, "/a", 3, 10, Some(tokens(4, 4, 1, 0, 0, 9))),
            record(AgentType::Gemini, "/b", 1, 20, Some(tokens(2, 2, 0, 0, 0, 4))),
        ]
    };
    let h1 = AggregationService::aggregate_by_date(make());
    let h2 = AggregationService::aggregate_by_date(make());
    assert!(heatmaps_equal(&h1, &h2));
}

#[test]
fn aggregate_by_agent_partitions_and_labels() {
    let records = vec![
        record(AgentType::Codex, "/c1", 1, 5, Some(tokens(1, 1, 0, 0, 0, 2))),
        record(AgentType::ClaudeCode, "/a1", 1, 7, None),
        record(AgentType::Codex, "/c2", 2, 5, Some(tokens(1, 1, 0, 0, 0, 3))),
    ];
    let by_agent = AggregationService::aggregate_by_agent(records);
    assert_eq!(by_agent.len(), 2);
    let claudecode = by_agent.iter().find(|(k, _)| k == "ClaudeCode").map(|(_, h)| h).unwrap();
    assert_eq!(claudecode.total_files, 1);
    assert_eq!(claudecode.total_size, 7);
    let codex = by_agent.iter().find(|(k, _)| k == "Codex").map(|(_, h)| h).unwrap();
    assert_eq!(codex.total_files, 2);
    assert_eq!(codex.token_stats.total_tokens, 5);
}

#[test]
fn record_date_truncates_to_calendar_day() {
    let r = record(AgentType::ClaudeCode, "/a", 19000, 1, None);
    assert_eq!(r.date(), 19000);
    let before_epoch = AgentRecord {
        created_at: Timestamp { secs: -1, nanos: 0 },
        ..record(AgentType::ClaudeCode, "/b", 0, 1, None)
    };
    assert_eq!(before_epoch.date(), -1);
}

#[test]
fn saturating_accumulation_never_panics() {
    let records = vec![
        record(AgentType::ClaudeCode, "/a", 1, u64::MAX, Some(tokens(u64::MAX, 1, 0, 0, 0, 0))),
        record(AgentType::ClaudeCode, "/b", 1, u64::MAX, Some(tokens(5, 1, 0, 0, 0, 0))),
    ];
    let h = AggregationService::aggregate_by_date(records);
    assert_eq!(h.total_size, u64::MAX);
    assert_eq!(h.token_stats.input_tokens, u64::MAX);
    assert_eq!(h.token_stats.total_tokens, u64::MAX);
}
