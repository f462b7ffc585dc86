//! The per-day, per-agent usage summary: its types, the date-ordered day
//! buckets, and the derived maxima and sums.

use vstd::prelude::*;
use crate::domain::{sat_add64, add_sat};

verus! {

/// Activity of one calendar day: how many files were created on it and
/// how many bytes they hold. `date` counts days since the Unix epoch.
#[derive(Clone, Copy, Debug, PartialEq, Eq, Structural)]
pub struct DayActivity {
    pub date: i64,
    pub count: usize,
    pub size: u64,
}

/// How often one tool was called across a record set.
#[derive(Debug)]
pub struct ToolCallStats {
    pub tool_name: String,
    pub count: usize,
}

impl View for ToolCallStats {
    type V = (Seq<char>, usize);

    open spec fn view(&self) -> (Seq<char>, usize) {
        (self.tool_name@, self.count)
    }
}

impl DeepView for ToolCallStats {
    type V = (Seq<char>, usize);

    open spec fn deep_view(&self) -> (Seq<char>, usize) {
        self.view()
    }
}

impl Clone for ToolCallStats {
    fn clone(&self) -> (r: Self)
        ensures
            r@ == self@,
    {
        ToolCallStats { tool_name: self.tool_name.clone(), count: self.count }
    }
}

/// Aggregated token subtotals of a record set. `reasoning_tokens` is
/// absent, not zero, when no reasoning-token signal was aggregated.
#[derive(Clone, Copy, Debug, PartialEq, Eq, Structural)]
pub struct TokenStats {
    pub input_tokens: u64,
    pub output_tokens: u64,
    pub cache_creation_tokens: u64,
    pub cache_read_tokens: u64,
    pub reasoning_tokens: Option<u64>,
    pub total_tokens: u64,
}

/// One agent's heatmap: day buckets ordered by date, their maxima and
/// sums, the tool-call histogram sorted by count descending, and the
/// token summary.
#[derive(Debug)]
pub struct HeatmapData {
    pub agent: String,
    pub data: Vec<DayActivity>,
    pub max_count: usize,
    pub total_files: usize,
    pub total_size: u64,
    pub tool_calls: Vec<ToolCallStats>,
    pub token_stats: TokenStats,
}

/// The mathematical value of a `HeatmapData`.
pub ghost struct HeatmapView {
    pub agent: Seq<char>,
    pub data: Seq<DayActivity>,
    pub max_count: usize,
    pub total_files: usize,
    pub total_size: u64,
    pub tool_calls: Seq<(Seq<char>, usize)>,
    pub token_stats: TokenStats,
}

impl View for HeatmapData {
    type V = HeatmapView;

    open spec fn view(&self) -> HeatmapView {
        HeatmapView {
            agent: self.agent@,
            data: self.data@,
            max_count: self.max_count,
            total_files: self.total_files,
            total_size: self.total_size,
            tool_calls: self.tool_calls.deep_view(),
            token_stats: self.token_stats,
        }
    }
}

/// Addition on `usize` that clamps at the maximum.
pub open spec fn sat_add_usize(a: usize, b: usize) -> usize {
    if a + b > usize::MAX {
        usize::MAX
    } else {
        (a + b) as usize
    }
}

/// Saturating addition on `usize`.
pub fn add_sat_usize(a: usize, b: usize) -> (r: usize)
    ensures
        r == sat_add_usize(a, b),
{
    if a > usize::MAX - b {
        usize::MAX
    } else {
        a + b
    }
}

/// Insertion of one day bucket into a date-ordered sequence, before the
/// first later date.
pub open spec fn spec_insert_day(sorted: Seq<DayActivity>, d: DayActivity) -> Seq<DayActivity>
    decreases sorted.len(),
{
    if sorted.len() == 0 {
        seq![d]
    } else if d.date < sorted[0].date {
        seq![d] + sorted
    } else {
        seq![sorted[0]] + spec_insert_day(sorted.drop_first(), d)
    }
}

/// The day buckets ordered by date ascending.
pub open spec fn spec_sort_days(s: Seq<DayActivity>) -> Seq<DayActivity>
    decreases s.len(),
{
    if s.len() == 0 {
        Seq::empty()
    } else {
        spec_insert_day(spec_sort_days(s.drop_last()), s.last())
    }
}

/// The largest day count, 0 for no days.
pub open spec fn spec_max_count(s: Seq<DayActivity>) -> usize
    decreases s.len(),
{
    if s.len() == 0 {
        0
    } else {
        let p = spec_max_count(s.drop_last());
        if s.last().count > p {
            s.last().count
        } else {
            p
        }
    }
}

/// The saturating sum of the day counts.
pub open spec fn spec_sum_counts(s: Seq<DayActivity>) -> usize
    decreases s.len(),
{
    if s.len() == 0 {
        0
    } else {
        sat_add_usize(spec_sum_counts(s.drop_last()), s.last().count)
    }
}

/// The saturating sum of the day sizes.
pub open spec fn spec_sum_sizes(s: Seq<DayActivity>) -> u64
    decreases s.len(),
{
    if s.len() == 0 {
        0
    } else {
        sat_add64(spec_sum_sizes(s.drop_last()), s.last().size)
    }
}

/// What assembling a heatmap from accumulated parts yields: the day
/// buckets sorted by date, and the maxima and sums computed from them —
/// never independently.
pub open spec fn spec_from_counts(
    agent: Seq<char>,
    days: Seq<DayActivity>,
    tools: Seq<(Seq<char>, usize)>,
    token_stats: TokenStats,
) -> HeatmapView {
    let sorted = spec_sort_days(days);
    HeatmapView {
        agent,
        data: sorted,
        max_count: spec_max_count(sorted),
        total_files: spec_sum_counts(sorted),
        total_size: spec_sum_sizes(sorted),
        tool_calls: tools,
        token_stats,
    }
}

/// Inserting where every earlier date is smaller is a positional insert.
proof fn lemma_insert_day_at(s: Seq<DayActivity>, d: DayActivity, j: int)
    requires
        0 <= j <= s.len(),
        forall|k: int| 0 <= k < j ==> !(d.date < s[k].date),
        j < s.len() ==> d.date < s[j].date,
    ensures
        spec_insert_day(s, d) == s.take(j) + seq![d] + s.skip(j),
    decreases j,
{
    if s.len() == 0 {
        assert(spec_insert_day(s, d) =~= s.take(0) + seq![d] + s.skip(0));
    } else if j == 0 {
        assert(s.take(0) + seq![d] + s.skip(0) =~= seq![d] + s);
    } else {
        lemma_insert_day_at(s.drop_first(), d, j - 1);
        assert(seq![s[0]] + (s.drop_first().take(j - 1) + seq![d] + s.drop_first().skip(j - 1))
            =~= s.take(j) + seq![d] + s.skip(j));
    }
}

impl HeatmapData {
    /// Assembles a heatmap: orders the day buckets by date and derives
    /// the maxima and sums from them.
    pub fn from_counts(
        agent: String,
        day_counts: Vec<DayActivity>,
        tool_calls: Vec<ToolCallStats>,
        token_stats: TokenStats,
    ) -> (r: HeatmapData)
        ensures
            r@ == spec_from_counts(agent@, day_counts@, tool_calls.deep_view(), token_stats),
    {
        let ghost dv = day_counts@;
        let mut data: Vec<DayActivity> = Vec::new();
        let mut i: usize = 0;
        assert(data@ =~= spec_sort_days(dv.take(0)));
        while i < day_counts.len()
            invariant
                i <= day_counts.len(),
                data@ == spec_sort_days(dv.take(i as int)),
            decreases day_counts.len() - i,
        {
            proof {
                assert(dv.take(i + 1).drop_last() =~= dv.take(i as int));
                assert(dv.take(i + 1).last() == dv[i as int]);
            }
            let d = day_counts[i];
            let mut j: usize = 0;
            while j < data.len() && !(d.date < data[j].date)
                invariant
                    j <= data.len(),
                    forall|k: int| 0 <= k < j ==> !(d.date < data@[k].date),
                decreases data.len() - j,
            {
                j += 1;
            }
            proof {
                lemma_insert_day_at(data@, d, j as int);
            }
            data.insert(j, d);
            i += 1;
        }
        proof {
            assert(dv.take(dv.len() as int) =~= dv);
        }
        let mut max_count: usize = 0;
        let mut total_files: usize = 0;
        let mut total_size: u64 = 0;
        let mut i: usize = 0;
        while i < data.len()
            invariant
                i <= data.len(),
                max_count == spec_max_count(data@.take(i as int)),
                total_files == spec_sum_counts(data@.take(i as int)),
                total_size == spec_sum_sizes(data@.take(i as int)),
            decreases data.len() - i,
        {
            proof {
                assert(data@.take(i + 1).drop_last() =~= data@.take(i as int));
                assert(data@.take(i + 1).last() == data@[i as int]);
            }
            if data[i].count > max_count {
                max_count = data[i].count;
            }
            total_files = add_sat_usize(total_files, data[i].count);
            total_size = add_sat(total_size, data[i].size);
            i += 1;
        }
        proof {
            assert(data@.take(data@.len() as int) =~= data@);
        }
        HeatmapData { agent, data, max_count, total_files, total_size, tool_calls, token_stats }
    }
}

} // verus!
