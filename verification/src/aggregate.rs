//! Folding a record set into one heatmap per agent. The token-total rule
//! branches on the agent kind: formats that trust an API-reported grand
//! total have their per-record totals summed; all others derive the total
//! from the four subtotals.

use vstd::prelude::*;
use crate::domain::{AgentType, AgentRecord, RecordView, sat_add64, add_sat};
use crate::heatmap::{
    DayActivity, ToolCallStats, TokenStats, HeatmapData, HeatmapView, spec_from_counts,
    sat_add_usize, add_sat_usize, spec_insert_day, spec_sort_days, spec_sum_counts,
    spec_sum_sizes,
};

verus! {

/// Whether aggregation trusts per-record grand totals: decided by the
/// first record's agent kind, and false for an empty set.
pub open spec fn spec_use_api_total(rs: Seq<RecordView>) -> bool {
    rs.len() > 0 && rs[0].agent_type.spec_uses_api_total()
}

/// The label a record set is reported under.
pub open spec fn spec_agent_label(rs: Seq<RecordView>) -> Seq<char> {
    if rs.len() > 0 {
        rs[0].agent_type.spec_label()
    } else {
        "Unknown"@
    }
}

/// Counting one record into the day buckets: the bucket of its creation
/// day grows by one file and its size, a first file opens the bucket.
pub open spec fn spec_bump_day(days: Seq<DayActivity>, day: i64, size: u64) -> Seq<DayActivity>
    decreases days.len(),
{
    if days.len() == 0 {
        seq![DayActivity { date: day, count: 1, size }]
    } else if days[0].date == day {
        seq![
            DayActivity {
                date: day,
                count: sat_add_usize(days[0].count, 1),
                size: sat_add64(days[0].size, size),
            },
        ] + days.drop_first()
    } else {
        seq![days[0]] + spec_bump_day(days.drop_first(), day, size)
    }
}

/// The day buckets of a record set, in first-seen day order.
pub open spec fn spec_day_buckets(rs: Seq<RecordView>) -> Seq<DayActivity>
    decreases rs.len(),
{
    if rs.len() == 0 {
        Seq::empty()
    } else {
        spec_bump_day(
            spec_day_buckets(rs.drop_last()),
            rs.last().created_at.spec_day() as i64,
            rs.last().file_size,
        )
    }
}

/// Counting one call of a tool into the histogram.
pub open spec fn spec_bump_tool(
    h: Seq<(Seq<char>, usize)>,
    name: Seq<char>,
) -> Seq<(Seq<char>, usize)>
    decreases h.len(),
{
    if h.len() == 0 {
        seq![(name, 1usize)]
    } else if h[0].0 == name {
        seq![(name, sat_add_usize(h[0].1, 1))] + h.drop_first()
    } else {
        seq![h[0]] + spec_bump_tool(h.drop_first(), name)
    }
}

pub open spec fn spec_bump_tools(
    h: Seq<(Seq<char>, usize)>,
    names: Seq<Seq<char>>,
) -> Seq<(Seq<char>, usize)>
    decreases names.len(),
{
    if names.len() == 0 {
        h
    } else {
        spec_bump_tool(spec_bump_tools(h, names.drop_last()), names.last())
    }
}

/// The tool-call histogram of a record set, in first-seen name order.
pub open spec fn spec_histogram(rs: Seq<RecordView>) -> Seq<(Seq<char>, usize)>
    decreases rs.len(),
{
    if rs.len() == 0 {
        Seq::empty()
    } else {
        spec_bump_tools(spec_histogram(rs.drop_last()), rs.last().tool_calls)
    }
}

/// Insertion of one histogram entry behind every at-least-as-frequent one:
/// the resulting order is by count descending, ties keeping first-seen
/// order.
pub open spec fn spec_insert_tool(
    sorted: Seq<(Seq<char>, usize)>,
    t: (Seq<char>, usize),
) -> Seq<(Seq<char>, usize)>
    decreases sorted.len(),
{
    if sorted.len() == 0 {
        seq![t]
    } else if t.1 > sorted[0].1 {
        seq![t] + sorted
    } else {
        seq![sorted[0]] + spec_insert_tool(sorted.drop_first(), t)
    }
}

pub open spec fn spec_sort_tools(s: Seq<(Seq<char>, usize)>) -> Seq<(Seq<char>, usize)>
    decreases s.len(),
{
    if s.len() == 0 {
        Seq::empty()
    } else {
        spec_insert_tool(spec_sort_tools(s.drop_last()), s.last())
    }
}

/// The aggregated token subtotals of a record set.
pub ghost struct TokenAgg {
    pub input: u64,
    pub output: u64,
    pub cache_creation: u64,
    pub cache_read: u64,
    pub reasoning: u64,
    pub api_total: u64,
}

pub open spec fn spec_token_fold(rs: Seq<RecordView>) -> TokenAgg
    decreases rs.len(),
{
    if rs.len() == 0 {
        TokenAgg { input: 0, output: 0, cache_creation: 0, cache_read: 0, reasoning: 0, api_total: 0 }
    } else {
        let p = spec_token_fold(rs.drop_last());
        match rs.last().tokens {
            Some(t) => TokenAgg {
                input: sat_add64(p.input, t.input),
                output: sat_add64(p.output, t.output),
                cache_creation: sat_add64(p.cache_creation, t.cache_creation),
                cache_read: sat_add64(p.cache_read, t.cached),
                reasoning: sat_add64(p.reasoning, t.reasoning),
                api_total: sat_add64(p.api_total, t.total),
            },
            None => p,
        }
    }
}

/// The reported token summary of a record set: subtotals are straight
/// sums; the total is the summed per-record total for API-total agents
/// and the sum of the four subtotals otherwise; a reasoning total is
/// reported only for API-total agents and only when it is non-zero.
pub open spec fn spec_token_stats(rs: Seq<RecordView>) -> TokenStats {
    let agg = spec_token_fold(rs);
    let use_api = spec_use_api_total(rs);
    let total = if use_api {
        agg.api_total
    } else {
        sat_add64(sat_add64(sat_add64(agg.input, agg.output), agg.cache_creation), agg.cache_read)
    };
    let reasoning = if use_api {
        agg.reasoning
    } else {
        0
    };
    TokenStats {
        input_tokens: agg.input,
        output_tokens: agg.output,
        cache_creation_tokens: agg.cache_creation,
        cache_read_tokens: agg.cache_read,
        reasoning_tokens: if reasoning > 0 {
            Some(reasoning)
        } else {
            None
        },
        total_tokens: total,
    }
}

/// What aggregating one record set yields.
pub open spec fn spec_aggregate(rs: Seq<RecordView>) -> HeatmapView {
    spec_from_counts(
        spec_agent_label(rs),
        spec_day_buckets(rs),
        spec_sort_tools(spec_histogram(rs)),
        spec_token_stats(rs),
    )
}

/// The records of one agent, in input order.
pub open spec fn spec_filter_agent(rs: Seq<RecordView>, t: AgentType) -> Seq<RecordView>
    decreases rs.len(),
{
    if rs.len() == 0 {
        Seq::empty()
    } else {
        let p = spec_filter_agent(rs.drop_last(), t);
        if rs.last().agent_type == t {
            p.push(rs.last())
        } else {
            p
        }
    }
}

/// One reported partition is sound: labelled by its agent, non-empty,
/// and exactly the aggregate of that agent's records.
pub open spec fn spec_partition_ok(all: Seq<RecordView>, e: (String, HeatmapData)) -> bool {
    let rs = spec_filter_agent(all, e.1@.data_agent());
    &&& e.0@ == e.1@.data_agent().spec_label()
    &&& rs.len() > 0
    &&& e.1@ == spec_aggregate(rs)
}

/// Pure functions over an in-memory record set; no reading or sending
/// happens here.
#[derive(Debug)]
pub struct AggregationService;

impl AggregationService {
    /// Folds one record set into its heatmap. An empty set yields empty
    /// days, zero totals and the label of no known agent — never an
    /// error.
    pub fn aggregate_by_date(records: Vec<AgentRecord>) -> (r: HeatmapData)
        ensures
            r@ == spec_aggregate(records.deep_view()),
    {
        let ghost rv = records.deep_view();
        let mut days: Vec<DayActivity> = Vec::new();
        let mut hist: Vec<ToolCallStats> = Vec::new();
        let mut input: u64 = 0;
        let mut output: u64 = 0;
        let mut cache_creation: u64 = 0;
        let mut cache_read: u64 = 0;
        let mut reasoning: u64 = 0;
        let mut api_total: u64 = 0;
        let use_api = if records.len() > 0 {
            records[0].agent_type.uses_api_total()
        } else {
            false
        };
        let agent = if records.len() > 0 {
            records[0].agent_type.label()
        } else {
            String::from_str("Unknown")
        };
        let mut i: usize = 0;
        assert(days@ =~= spec_day_buckets(rv.take(0)));
        assert(hist.deep_view() =~= spec_histogram(rv.take(0)));
        while i < records.len()
            invariant
                i <= records.len(),
                days@ == spec_day_buckets(rv.take(i as int)),
                hist.deep_view() == spec_histogram(rv.take(i as int)),
                ({
                    let agg = spec_token_fold(rv.take(i as int));
                    &&& input == agg.input
                    &&& output == agg.output
                    &&& cache_creation == agg.cache_creation
                    &&& cache_read == agg.cache_read
                    &&& reasoning == agg.reasoning
                    &&& api_total == agg.api_total
                }),
            decreases records.len() - i,
        {
            proof {
                assert(rv.take(i + 1).drop_last() =~= rv.take(i as int));
                assert(rv.take(i + 1).last() == rv[i as int]);
            }
            let rec = &records[i];
            let day = rec.date();
            bump_day(&mut days, day, rec.file_size);
            bump_tools(&mut hist, &rec.tool_calls);
            match &rec.tokens {
                Some(t) => {
                    input = add_sat(input, t.input);
                    output = add_sat(output, t.output);
                    cache_creation = add_sat(cache_creation, t.cache_creation);
                    cache_read = add_sat(cache_read, t.cached);
                    reasoning = add_sat(reasoning, t.reasoning);
                    api_total = add_sat(api_total, t.total);
                },
                None => {},
            }
            i += 1;
        }
        proof {
            assert(rv.take(rv.len() as int) =~= rv);
        }
        let sorted_tools = sort_tools(hist);
        let total = if use_api {
            api_total
        } else {
            add_sat(add_sat(add_sat(input, output), cache_creation), cache_read)
        };
        let reasoning_total = if use_api {
            reasoning
        } else {
            0
        };
        let token_stats = TokenStats {
            input_tokens: input,
            output_tokens: output,
            cache_creation_tokens: cache_creation,
            cache_read_tokens: cache_read,
            reasoning_tokens: if reasoning_total > 0 {
                Some(reasoning_total)
            } else {
                None
            },
            total_tokens: total,
        };
        HeatmapData::from_counts(agent, days, sorted_tools, token_stats)
    }

    /// Partitions a mixed record set by agent and aggregates each
    /// partition independently, labelled, in a fixed agent order; agents
    /// with no records are left out.
    pub fn aggregate_by_agent(records: Vec<AgentRecord>) -> (r: Vec<(String, HeatmapData)>)
        ensures
            r@.len() <= 4,
            forall|k: int| 0 <= k < r@.len() ==> spec_partition_ok(
                records.deep_view(),
                #[trigger] r@[k],
            ),
            spec_filter_agent(records.deep_view(), AgentType::ClaudeCode).len() > 0
                ==> exists|k: int|
                0 <= k < r@.len() && (#[trigger] r@[k]).1@.data_agent() == AgentType::ClaudeCode,
            spec_filter_agent(records.deep_view(), AgentType::Codex).len() > 0 ==> exists|k: int|
                0 <= k < r@.len() && (#[trigger] r@[k]).1@.data_agent() == AgentType::Codex,
            spec_filter_agent(records.deep_view(), AgentType::Gemini).len() > 0 ==> exists|k: int|
                0 <= k < r@.len() && (#[trigger] r@[k]).1@.data_agent() == AgentType::Gemini,
            spec_filter_agent(records.deep_view(), AgentType::Codexia).len() > 0
                ==> exists|k: int|
                0 <= k < r@.len() && (#[trigger] r@[k]).1@.data_agent() == AgentType::Codexia,
    {
        let ghost rv = records.deep_view();
        let mut r: Vec<(String, HeatmapData)> = Vec::new();
        let claudecode = filter_agent(&records, AgentType::ClaudeCode);
        let codex = filter_agent(&records, AgentType::Codex);
        let gemini = filter_agent(&records, AgentType::Gemini);
        let codexia = filter_agent(&records, AgentType::Codexia);
        push_partition(&mut r, AgentType::ClaudeCode, claudecode, Ghost(rv));
        let ghost r1 = r@;
        push_partition(&mut r, AgentType::Codex, codex, Ghost(rv));
        let ghost r2 = r@;
        push_partition(&mut r, AgentType::Gemini, gemini, Ghost(rv));
        let ghost r3 = r@;
        push_partition(&mut r, AgentType::Codexia, codexia, Ghost(rv));
        proof {
            if spec_filter_agent(rv, AgentType::ClaudeCode).len() > 0 {
                let k = choose|k: int|
                    0 <= k < r1.len() && (#[trigger] r1[k]).1@.data_agent() == AgentType::ClaudeCode;
                assert(r2[k] == r1[k]);
                assert(r3[k] == r2[k]);
                assert(r@[k] == r3[k]);
            }
            if spec_filter_agent(rv, AgentType::Codex).len() > 0 {
                let k = choose|k: int|
                    0 <= k < r2.len() && (#[trigger] r2[k]).1@.data_agent() == AgentType::Codex;
                assert(r3[k] == r2[k]);
                assert(r@[k] == r3[k]);
            }
            if spec_filter_agent(rv, AgentType::Gemini).len() > 0 {
                let k = choose|k: int|
                    0 <= k < r3.len() && (#[trigger] r3[k]).1@.data_agent() == AgentType::Gemini;
                assert(r@[k] == r3[k]);
            }
        }
        r
    }
}

impl HeatmapView {
    /// The agent a partition's heatmap belongs to, read back from its
    /// label; partitions are homogeneous so the label decides.
    pub open spec fn data_agent(self) -> AgentType {
        if self.agent == AgentType::ClaudeCode.spec_label() {
            AgentType::ClaudeCode
        } else if self.agent == AgentType::Codex.spec_label() {
            AgentType::Codex
        } else if self.agent == AgentType::Gemini.spec_label() {
            AgentType::Gemini
        } else {
            AgentType::Codexia
        }
    }
}

/// Counts one record into the day buckets.
fn bump_day(days: &mut Vec<DayActivity>, day: i64, size: u64)
    ensures
        final(days)@ == spec_bump_day(old(days)@, day, size),
{
    let ghost s = days@;
    let mut i: usize = 0;
    while i < days.len()
        invariant
            i <= days.len(),
            days@ == s,
            forall|j: int| 0 <= j < i ==> s[j].date != day,
        decreases days.len() - i,
    {
        if days[i].date == day {
            proof {
                lemma_bump_day_found(s, day, size, i as int);
            }
            let updated = DayActivity {
                date: day,
                count: add_sat_usize(days[i].count, 1),
                size: add_sat(days[i].size, size),
            };
            days[i] = updated;
            proof {
                assert(days@ =~= s.update(
                    i as int,
                    DayActivity {
                        date: day,
                        count: sat_add_usize(s[i as int].count, 1),
                        size: sat_add64(s[i as int].size, size),
                    },
                ));
            }
            return ;
        }
        i += 1;
    }
    proof {
        lemma_bump_day_append(s, day, size);
    }
    days.push(DayActivity { date: day, count: 1, size });
    proof {
        assert(days@ =~= s.push(DayActivity { date: day, count: 1, size }));
    }
}

/// Bumping the bucket that is present is an in-place update.
proof fn lemma_bump_day_found(s: Seq<DayActivity>, day: i64, size: u64, i: int)
    requires
        0 <= i < s.len(),
        forall|j: int| 0 <= j < i ==> s[j].date != day,
        s[i].date == day,
    ensures
        spec_bump_day(s, day, size) == s.update(
            i,
            DayActivity {
                date: day,
                count: sat_add_usize(s[i].count, 1),
                size: sat_add64(s[i].size, size),
            },
        ),
    decreases i,
{
    let d = DayActivity {
        date: day,
        count: sat_add_usize(s[i].count, 1),
        size: sat_add64(s[i].size, size),
    };
    if i == 0 {
        assert(seq![d] + s.drop_first() =~= s.update(0, d));
    } else {
        lemma_bump_day_found(s.drop_first(), day, size, i - 1);
        assert(seq![s[0]] + s.drop_first().update(i - 1, d) =~= s.update(i, d));
    }
}

/// Bumping an absent day appends its first bucket.
proof fn lemma_bump_day_append(s: Seq<DayActivity>, day: i64, size: u64)
    requires
        forall|j: int| 0 <= j < s.len() ==> s[j].date != day,
    ensures
        spec_bump_day(s, day, size) == s.push(DayActivity { date: day, count: 1, size }),
    decreases s.len(),
{
    if s.len() == 0 {
        assert(spec_bump_day(s, day, size) =~= s.push(DayActivity { date: day, count: 1, size }));
    } else {
        lemma_bump_day_append(s.drop_first(), day, size);
        assert(seq![s[0]] + s.drop_first().push(DayActivity { date: day, count: 1, size }) =~= s.push(
            DayActivity { date: day, count: 1, size },
        ));
    }
}

/// Counts one call of a tool into the histogram.
fn bump_tool(hist: &mut Vec<ToolCallStats>, name: &String)
    ensures
        final(hist).deep_view() == spec_bump_tool(old(hist).deep_view(), name@),
{
    let ghost s = hist.deep_view();
    let mut i: usize = 0;
    while i < hist.len()
        invariant
            i <= hist.len(),
            hist.deep_view() == s,
            forall|j: int| 0 <= j < i ==> s[j].0 != name@,
        decreases hist.len() - i,
    {
        proof {
            assert(s[i as int] == hist@[i as int]@);
        }
        if crate::json::str_eq(hist[i].tool_name.as_str(), name.as_str()) {
            proof {
                lemma_bump_tool_found(s, name@, i as int);
            }
            let updated = ToolCallStats {
                tool_name: name.clone(),
                count: add_sat_usize(hist[i].count, 1),
            };
            hist[i] = updated;
            proof {
                assert(hist.deep_view() =~= s.update(
                    i as int,
                    (name@, sat_add_usize(s[i as int].1, 1)),
                ));
            }
            return ;
        }
        i += 1;
    }
    proof {
        lemma_bump_tool_append(s, name@);
    }
    hist.push(ToolCallStats { tool_name: name.clone(), count: 1 });
    proof {
        assert(hist.deep_view() =~= s.push((name@, 1usize)));
    }
}

proof fn lemma_bump_tool_found(s: Seq<(Seq<char>, usize)>, name: Seq<char>, i: int)
    requires
        0 <= i < s.len(),
        forall|j: int| 0 <= j < i ==> s[j].0 != name,
        s[i].0 == name,
    ensures
        spec_bump_tool(s, name) == s.update(i, (name, sat_add_usize(s[i].1, 1))),
    decreases i,
{
    let d = (name, sat_add_usize(s[i].1, 1));
    if i == 0 {
        assert(seq![d] + s.drop_first() =~= s.update(0, d));
    } else {
        lemma_bump_tool_found(s.drop_first(), name, i - 1);
        assert(seq![s[0]] + s.drop_first().update(i - 1, d) =~= s.update(i, d));
    }
}

proof fn lemma_bump_tool_append(s: Seq<(Seq<char>, usize)>, name: Seq<char>)
    requires
        forall|j: int| 0 <= j < s.len() ==> s[j].0 != name,
    ensures
        spec_bump_tool(s, name) == s.push((name, 1usize)),
    decreases s.len(),
{
    if s.len() == 0 {
        assert(spec_bump_tool(s, name) =~= s.push((name, 1usize)));
    } else {
        lemma_bump_tool_append(s.drop_first(), name);
        assert(seq![s[0]] + s.drop_first().push((name, 1usize)) =~= s.push((name, 1usize)));
    }
}

/// Counts every tool call of one record, in encounter order.
fn bump_tools(hist: &mut Vec<ToolCallStats>, names: &Vec<String>)
    ensures
        final(hist).deep_view() == spec_bump_tools(old(hist).deep_view(), names.deep_view()),
{
    let ghost h0 = hist.deep_view();
    let ghost nv = names.deep_view();
    let mut k: usize = 0;
    while k < names.len()
        invariant
            k <= names.len(),
            hist.deep_view() == spec_bump_tools(h0, nv.take(k as int)),
        decreases names.len() - k,
    {
        proof {
            assert(nv.take(k + 1).drop_last() =~= nv.take(k as int));
            assert(nv.take(k + 1).last() == nv[k as int]);
            assert(names@[k as int]@ == nv[k as int]);
        }
        bump_tool(hist, &names[k]);
        k += 1;
    }
    proof {
        assert(nv.take(nv.len() as int) =~= nv);
    }
}

/// Orders the histogram by count descending, stably.
fn sort_tools(hist: Vec<ToolCallStats>) -> (r: Vec<ToolCallStats>)
    ensures
        r.deep_view() == spec_sort_tools(hist.deep_view()),
{
    let ghost hv = hist.deep_view();
    let mut r: Vec<ToolCallStats> = Vec::new();
    let mut i: usize = 0;
    assert(r.deep_view() =~= spec_sort_tools(hv.take(0)));
    while i < hist.len()
        invariant
            i <= hist.len(),
            r.deep_view() == spec_sort_tools(hv.take(i as int)),
        decreases hist.len() - i,
    {
        proof {
            assert(hv.take(i + 1).drop_last() =~= hv.take(i as int));
            assert(hv.take(i + 1).last() == hv[i as int]);
            assert(hist@[i as int]@ == hv[i as int]);
        }
        let t = hist[i].clone();
        let mut j: usize = 0;
        while j < r.len() && !(t.count > r[j].count)
            invariant
                j <= r.len(),
                forall|k: int| 0 <= k < j ==> !(t.count > r.deep_view()[k].1),
            decreases r.len() - j,
        {
            j += 1;
        }
        proof {
            lemma_insert_tool_at(r.deep_view(), t@, j as int);
        }
        let ghost before = r.deep_view();
        r.insert(j, t);
        proof {
            assert(r.deep_view() =~~= before.take(j as int) + seq![hv[i as int]] + before.skip(
                j as int,
            ));
        }
        i += 1;
    }
    proof {
        assert(hv.take(hv.len() as int) =~= hv);
    }
    r
}

proof fn lemma_insert_tool_at(s: Seq<(Seq<char>, usize)>, t: (Seq<char>, usize), j: int)
    requires
        0 <= j <= s.len(),
        forall|k: int| 0 <= k < j ==> !(t.1 > s[k].1),
        j < s.len() ==> t.1 > s[j].1,
    ensures
        spec_insert_tool(s, t) == s.take(j) + seq![t] + s.skip(j),
    decreases j,
{
    if s.len() == 0 {
        assert(spec_insert_tool(s, t) =~= s.take(0) + seq![t] + s.skip(0));
    } else if j == 0 {
        assert(s.take(0) + seq![t] + s.skip(0) =~= seq![t] + s);
    } else {
        lemma_insert_tool_at(s.drop_first(), t, j - 1);
        assert(seq![s[0]] + (s.drop_first().take(j - 1) + seq![t] + s.drop_first().skip(j - 1))
            =~= s.take(j) + seq![t] + s.skip(j));
    }
}

/// Keeps one agent's records, cloned, in input order.
fn filter_agent(records: &Vec<AgentRecord>, t: AgentType) -> (r: Vec<AgentRecord>)
    ensures
        r.deep_view() == spec_filter_agent(records.deep_view(), t),
{
    let ghost rv = records.deep_view();
    let mut r: Vec<AgentRecord> = Vec::new();
    let mut i: usize = 0;
    assert(r.deep_view() =~= spec_filter_agent(rv.take(0), t));
    while i < records.len()
        invariant
            i <= records.len(),
            r.deep_view() == spec_filter_agent(rv.take(i as int), t),
        decreases records.len() - i,
    {
        proof {
            assert(rv.take(i + 1).drop_last() =~= rv.take(i as int));
            assert(rv.take(i + 1).last() == rv[i as int]);
        }
        let same = match (records[i].agent_type, t) {
            (AgentType::ClaudeCode, AgentType::ClaudeCode) => true,
            (AgentType::Codex, AgentType::Codex) => true,
            (AgentType::Gemini, AgentType::Gemini) => true,
            (AgentType::Codexia, AgentType::Codexia) => true,
            _ => false,
        };
        if same {
            let ghost prev = r.deep_view();
            let rec = records[i].clone();
            let ghost cv = rec@;
            r.push(rec);
            proof {
                assert(r.deep_view() =~= prev.push(cv));
            }
        }
        i += 1;
    }
    proof {
        assert(rv.take(rv.len() as int) =~= rv);
    }
    r
}

/// Aggregates one non-empty partition and labels it.
fn push_partition(
    r: &mut Vec<(String, HeatmapData)>,
    t: AgentType,
    part: Vec<AgentRecord>,
    all: Ghost<Seq<RecordView>>,
)
    requires
        part.deep_view() == spec_filter_agent(all@, t),
        old(r)@.len() <= 4,
        forall|k: int| 0 <= k < old(r)@.len() ==> spec_partition_ok(all@, #[trigger] old(r)@[k]),
    ensures
        old(r)@.len() <= final(r)@.len() <= old(r)@.len() + 1,
        forall|k: int| 0 <= k < final(r)@.len() ==> spec_partition_ok(
            all@,
            #[trigger] final(r)@[k],
        ),
        spec_filter_agent(all@, t).len() > 0 ==> exists|k: int|
            0 <= k < final(r)@.len() && (#[trigger] final(r)@[k]).1@.data_agent() == t,
        forall|k: int| 0 <= k < old(r)@.len() ==> #[trigger] final(r)@[k] == old(r)@[k],
{
    if part.len() > 0 {
        proof {
            lemma_filter_agent_homogeneous(all@, t);
            reveal_strlit("ClaudeCode");
            reveal_strlit("Codex");
            reveal_strlit("Gemini");
            reveal_strlit("Codexia");
            assert("ClaudeCode"@.len() == 10);
            assert("Codex"@.len() == 5);
            assert("Gemini"@.len() == 6);
            assert("Codexia"@.len() == 7);
        }
        let label = t.label();
        let heat = AggregationService::aggregate_by_date(part);
        proof {
            assert(part.deep_view()[0].agent_type == t);
            assert(heat@.agent == t.spec_label());
            assert(heat@.data_agent() == t);
        }
        r.push((label, heat));
        proof {
            assert(r@[r@.len() - 1].1@.data_agent() == t);
        }
    }
}

/// Every record of a partition carries the partition's agent, so a
/// non-empty partition's label is that agent's.
proof fn lemma_filter_agent_homogeneous(rs: Seq<RecordView>, t: AgentType)
    ensures
        forall|k: int| #![all_triggers] 0 <= k < spec_filter_agent(rs, t).len()
            ==> spec_filter_agent(rs, t)[k].agent_type == t,
    decreases rs.len(),
{
    if rs.len() == 0 {
    } else {
        lemma_filter_agent_homogeneous(rs.drop_last(), t);
    }
}

/// The cardinality-weighted sums of a bucket sequence, as exact integers.
pub open spec fn int_count_sum(s: Seq<DayActivity>) -> int
    decreases s.len(),
{
    if s.len() == 0 {
        0
    } else {
        s[0].count + int_count_sum(s.drop_first())
    }
}

pub open spec fn int_size_sum(s: Seq<DayActivity>) -> int
    decreases s.len(),
{
    if s.len() == 0 {
        0
    } else {
        s[0].size + int_size_sum(s.drop_first())
    }
}

/// The exact sum of the records' file sizes.
pub open spec fn int_record_size_sum(rs: Seq<RecordView>) -> int
    decreases rs.len(),
{
    if rs.len() == 0 {
        0
    } else {
        int_record_size_sum(rs.drop_last()) + rs.last().file_size
    }
}

proof fn lemma_count_sum_push(s: Seq<DayActivity>, d: DayActivity)
    ensures
        int_count_sum(s.push(d)) == int_count_sum(s) + d.count,
        int_size_sum(s.push(d)) == int_size_sum(s) + d.size,
    decreases s.len(),
{
    if s.len() == 0 {
        assert(s.push(d)[0] == d);
        assert(s.push(d).drop_first() =~= Seq::<DayActivity>::empty());
        assert(int_count_sum(Seq::<DayActivity>::empty()) == 0);
        assert(int_size_sum(Seq::<DayActivity>::empty()) == 0);
    } else {
        assert(s.push(d)[0] == s[0]);
        assert(s.push(d).drop_first() =~= s.drop_first().push(d));
        lemma_count_sum_push(s.drop_first(), d);
    }
}

proof fn lemma_count_le_sum(s: Seq<DayActivity>, i: int)
    requires
        0 <= i < s.len(),
    ensures
        s[i].count <= int_count_sum(s),
        s[i].size <= int_size_sum(s),
        int_count_sum(s) >= 0,
        int_size_sum(s) >= 0,
    decreases s.len(),
{
    lemma_sums_nonneg(s.drop_first());
    if i > 0 {
        lemma_count_le_sum(s.drop_first(), i - 1);
    }
}

proof fn lemma_sums_nonneg(s: Seq<DayActivity>)
    ensures
        int_count_sum(s) >= 0,
        int_size_sum(s) >= 0,
    decreases s.len(),
{
    if s.len() > 0 {
        lemma_sums_nonneg(s.drop_first());
    }
}

/// Counting one record into the buckets adds one file and its size.
proof fn lemma_bump_day_sums(s: Seq<DayActivity>, day: i64, size: u64)
    requires
        int_count_sum(s) < usize::MAX,
        int_size_sum(s) + size <= u64::MAX,
    ensures
        int_count_sum(spec_bump_day(s, day, size)) == int_count_sum(s) + 1,
        int_size_sum(spec_bump_day(s, day, size)) == int_size_sum(s) + size,
    decreases s.len(),
{
    lemma_sums_nonneg(s);
    if s.len() == 0 {
        let b = spec_bump_day(s, day, size);
        assert(b[0] == DayActivity { date: day, count: 1, size });
        assert(b.drop_first() =~= Seq::<DayActivity>::empty());
        assert(int_count_sum(Seq::<DayActivity>::empty()) == 0);
        assert(int_size_sum(Seq::<DayActivity>::empty()) == 0);
    } else if s[0].date == day {
        lemma_count_le_sum(s, 0);
        lemma_sums_nonneg(s.drop_first());
        let d = DayActivity {
            date: day,
            count: sat_add_usize(s[0].count, 1),
            size: sat_add64(s[0].size, size),
        };
        assert((seq![d] + s.drop_first())[0] == d);
        assert((seq![d] + s.drop_first()).drop_first() =~= s.drop_first());
    } else {
        lemma_sums_nonneg(s.drop_first());
        lemma_bump_day_sums(s.drop_first(), day, size);
        let b = spec_bump_day(s, day, size);
        assert(b[0] == s[0]);
        assert(b.drop_first() =~= spec_bump_day(s.drop_first(), day, size));
    }
}

proof fn lemma_record_size_sum_bounds(rs: Seq<RecordView>)
    ensures
        int_record_size_sum(rs) >= 0,
        rs.len() > 0 ==> int_record_size_sum(rs.drop_last()) <= int_record_size_sum(rs),
    decreases rs.len(),
{
    if rs.len() > 0 {
        lemma_record_size_sum_bounds(rs.drop_last());
    }
}

/// The buckets of a record set hold exactly its files and bytes.
proof fn lemma_day_buckets_sums(rs: Seq<RecordView>)
    requires
        rs.len() <= usize::MAX,
        int_record_size_sum(rs) <= u64::MAX,
    ensures
        int_count_sum(spec_day_buckets(rs)) == rs.len(),
        int_size_sum(spec_day_buckets(rs)) == int_record_size_sum(rs),
    decreases rs.len(),
{
    if rs.len() > 0 {
        lemma_record_size_sum_bounds(rs);
        lemma_day_buckets_sums(rs.drop_last());
        lemma_bump_day_sums(
            spec_day_buckets(rs.drop_last()),
            rs.last().created_at.spec_day() as i64,
            rs.last().file_size,
        );
    }
}

/// A positional insert moves the sums by the inserted bucket.
proof fn lemma_insert_day_sums(s: Seq<DayActivity>, d: DayActivity)
    ensures
        int_count_sum(spec_insert_day(s, d)) == int_count_sum(s) + d.count,
        int_size_sum(spec_insert_day(s, d)) == int_size_sum(s) + d.size,
    decreases s.len(),
{
    if s.len() == 0 {
        assert(spec_insert_day(s, d)[0] == d);
        assert(spec_insert_day(s, d).drop_first() =~= Seq::<DayActivity>::empty());
        assert(int_count_sum(Seq::<DayActivity>::empty()) == 0);
        assert(int_size_sum(Seq::<DayActivity>::empty()) == 0);
    } else if d.date < s[0].date {
        assert((seq![d] + s)[0] == d);
        assert((seq![d] + s).drop_first() =~= s);
    } else {
        lemma_insert_day_sums(s.drop_first(), d);
        let b = spec_insert_day(s, d);
        assert(b[0] == s[0]);
        assert(b.drop_first() =~= spec_insert_day(s.drop_first(), d));
    }
}

/// Ordering the buckets by date moves no file and no byte.
proof fn lemma_sort_days_sums(s: Seq<DayActivity>)
    ensures
        int_count_sum(spec_sort_days(s)) == int_count_sum(s),
        int_size_sum(spec_sort_days(s)) == int_size_sum(s),
    decreases s.len(),
{
    if s.len() > 0 {
        lemma_sort_days_sums(s.drop_last());
        lemma_insert_day_sums(spec_sort_days(s.drop_last()), s.last());
        lemma_count_sum_push(s.drop_last(), s.last());
        assert(s.drop_last().push(s.last()) =~= s);
    }
}

/// Where the exact sums fit, the saturating sums equal them.
proof fn lemma_sat_sums_exact(s: Seq<DayActivity>)
    requires
        int_count_sum(s) <= usize::MAX,
        int_size_sum(s) <= u64::MAX,
    ensures
        spec_sum_counts(s) == int_count_sum(s),
        spec_sum_sizes(s) == int_size_sum(s),
    decreases s.len(),
{
    if s.len() > 0 {
        lemma_count_sum_push(s.drop_last(), s.last());
        assert(s.drop_last().push(s.last()) =~= s);
        lemma_sums_nonneg(s.drop_last());
        lemma_sat_sums_exact(s.drop_last());
    }
}

/// For every record set whose sizes fit the machine's integers, the
/// heatmap's file total is the set's cardinality and its size total the
/// exact sum of the records' file sizes.
pub proof fn lemma_totals_exact(rs: Seq<RecordView>)
    requires
        rs.len() <= usize::MAX,
        int_record_size_sum(rs) <= u64::MAX,
    ensures
        spec_aggregate(rs).total_files == rs.len(),
        spec_aggregate(rs).total_size == int_record_size_sum(rs),
{
    lemma_record_size_sum_bounds(rs);
    lemma_day_buckets_sums(rs);
    lemma_sort_days_sums(spec_day_buckets(rs));
    lemma_sat_sums_exact(spec_sort_days(spec_day_buckets(rs)));
}

/// The saturating sum of the records' own reported grand totals.
pub open spec fn spec_sum_record_totals(rs: Seq<RecordView>) -> u64
    decreases rs.len(),
{
    if rs.len() == 0 {
        0
    } else {
        match rs.last().tokens {
            Some(t) => sat_add64(spec_sum_record_totals(rs.drop_last()), t.total),
            None => spec_sum_record_totals(rs.drop_last()),
        }
    }
}

/// The saturating sums of the four token subtotals across a record set.
pub open spec fn spec_sum_inputs(rs: Seq<RecordView>) -> u64
    decreases rs.len(),
{
    if rs.len() == 0 {
        0
    } else {
        match rs.last().tokens {
            Some(t) => sat_add64(spec_sum_inputs(rs.drop_last()), t.input),
            None => spec_sum_inputs(rs.drop_last()),
        }
    }
}

pub open spec fn spec_sum_outputs(rs: Seq<RecordView>) -> u64
    decreases rs.len(),
{
    if rs.len() == 0 {
        0
    } else {
        match rs.last().tokens {
            Some(t) => sat_add64(spec_sum_outputs(rs.drop_last()), t.output),
            None => spec_sum_outputs(rs.drop_last()),
        }
    }
}

pub open spec fn spec_sum_cache_creation(rs: Seq<RecordView>) -> u64
    decreases rs.len(),
{
    if rs.len() == 0 {
        0
    } else {
        match rs.last().tokens {
            Some(t) => sat_add64(spec_sum_cache_creation(rs.drop_last()), t.cache_creation),
            None => spec_sum_cache_creation(rs.drop_last()),
        }
    }
}

pub open spec fn spec_sum_cache_read(rs: Seq<RecordView>) -> u64
    decreases rs.len(),
{
    if rs.len() == 0 {
        0
    } else {
        match rs.last().tokens {
            Some(t) => sat_add64(spec_sum_cache_read(rs.drop_last()), t.cached),
            None => spec_sum_cache_read(rs.drop_last()),
        }
    }
}

proof fn lemma_token_fold_sums(rs: Seq<RecordView>)
    ensures
        spec_token_fold(rs).api_total == spec_sum_record_totals(rs),
        spec_token_fold(rs).input == spec_sum_inputs(rs),
        spec_token_fold(rs).output == spec_sum_outputs(rs),
        spec_token_fold(rs).cache_creation == spec_sum_cache_creation(rs),
        spec_token_fold(rs).cache_read == spec_sum_cache_read(rs),
    decreases rs.len(),
{
    if rs.len() > 0 {
        lemma_token_fold_sums(rs.drop_last());
    }
}

/// For a record set of an agent that trusts its API-reported totals, the
/// aggregate token total is the sum of the records' own `total` fields —
/// not a sum of subtotals.
pub proof fn lemma_api_total(rs: Seq<RecordView>)
    requires
        spec_use_api_total(rs),
    ensures
        spec_aggregate(rs).token_stats.total_tokens == spec_sum_record_totals(rs),
{
    lemma_token_fold_sums(rs);
}

/// For a record set of an agent with derived accounting, the aggregate
/// token total is input + output + cache-creation + cache-read, summed
/// across records.
pub proof fn lemma_derived_total(rs: Seq<RecordView>)
    requires
        !spec_use_api_total(rs),
    ensures
        spec_aggregate(rs).token_stats.total_tokens == sat_add64(
            sat_add64(sat_add64(spec_sum_inputs(rs), spec_sum_outputs(rs)), spec_sum_cache_creation(rs)),
            spec_sum_cache_read(rs),
        ),
{
    lemma_token_fold_sums(rs);
}

/// Aggregation is a pure function of the record set: two aggregations of
/// the same records yield identical heatmaps, so repeating an aggregation
/// changes nothing.
pub proof fn lemma_aggregate_repeatable(rs: Seq<RecordView>, h1: HeatmapView, h2: HeatmapView)
    requires
        h1 == spec_aggregate(rs),
        h2 == spec_aggregate(rs),
    ensures
        h1 == h2,
{
}

} // verus!
