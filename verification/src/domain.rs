//! The common record model every log format is normalized into.

use vstd::prelude::*;

verus! {

/// The tool that produced a log file. `Codexia` stands for rows whose
/// recorded agent name is not one of the three supported tools.
#[derive(Clone, Copy, Debug, PartialEq, Eq, Structural)]
pub enum AgentType {
    ClaudeCode,
    Codex,
    Gemini,
    Codexia,
}

impl AgentType {
    /// The label under which this agent is reported.
    pub fn label(&self) -> (r: String)
        ensures
            r@ == self.spec_label(),
    {
        match self {
            AgentType::ClaudeCode => String::from_str("ClaudeCode"),
            AgentType::Codex => String::from_str("Codex"),
            AgentType::Gemini => String::from_str("Gemini"),
            AgentType::Codexia => String::from_str("Codexia"),
        }
    }

    pub open spec fn spec_label(self) -> Seq<char> {
        match self {
            AgentType::ClaudeCode => "ClaudeCode"@,
            AgentType::Codex => "Codex"@,
            AgentType::Gemini => "Gemini"@,
            AgentType::Codexia => "Codexia"@,
        }
    }

    /// Whether this agent's normalizer already trusts an API-reported grand
    /// total per file, so that aggregation sums the per-record totals rather
    /// than deriving a total from the subtotals.
    pub open spec fn spec_uses_api_total(self) -> bool {
        self == AgentType::Codex || self == AgentType::Gemini
    }

    pub fn uses_api_total(&self) -> (r: bool)
        ensures
            r == self.spec_uses_api_total(),
    {
        match self {
            AgentType::Codex => true,
            AgentType::Gemini => true,
            _ => false,
        }
    }
}

/// A point in time, as whole seconds since the Unix epoch plus a
/// sub-second nanosecond part.
#[derive(Clone, Copy, Debug, PartialEq, Eq, Structural)]
pub struct Timestamp {
    pub secs: i64,
    pub nanos: u32,
}

pub const SECS_PER_DAY: i64 = 86400;

impl Timestamp {
    /// The calendar day this instant falls on, as a count of days since the
    /// Unix epoch (negative for instants before it).
    pub open spec fn spec_day(self) -> int {
        self.secs as int / (SECS_PER_DAY as int)
    }

    /// Truncates the timestamp to its calendar day.
    pub fn day(&self) -> (d: i64)
        ensures
            d == self.spec_day(),
    {
        if self.secs >= 0 {
            ((self.secs as u64) / (SECS_PER_DAY as u64)) as i64
        } else {
            let up: u64 = (-(self.secs + 1)) as u64;
            -((up / (SECS_PER_DAY as u64)) as i64) - 1
        }
    }
}

/// Accumulated token counts of one log file. `total` is not always the sum
/// of the other fields: for formats that report a grand total it is taken
/// from the log verbatim.
#[derive(Clone, Copy, Debug, PartialEq, Eq, Structural)]
pub struct TokenInfo {
    pub input: u64,
    pub output: u64,
    pub cached: u64,
    pub cache_creation: u64,
    pub reasoning: u64,
    pub total: u64,
}

/// Addition that clamps at the maximum instead of overflowing.
pub open spec fn sat_add64(a: u64, b: u64) -> u64 {
    if a + b > u64::MAX {
        u64::MAX
    } else {
        (a + b) as u64
    }
}

/// Saturating addition on `u64`.
pub fn add_sat(a: u64, b: u64) -> (r: u64)
    ensures
        r == sat_add64(a, b),
{
    if a > u64::MAX - b {
        u64::MAX
    } else {
        a + b
    }
}

/// Why a file could not be normalized. Malformed input is file-scoped for
/// a single-document format and never scan-fatal: the caller skips the
/// file.
#[derive(Clone, Copy, Debug, PartialEq, Eq, Structural)]
pub enum ParseError {
    MalformedDocument,
}

/// The common representation every normalizer produces: one record per
/// source log file.
#[derive(Debug)]
pub struct AgentRecord {
    pub agent_type: AgentType,
    pub file_path: String,
    pub created_at: Timestamp,
    pub modified_at: Timestamp,
    pub file_size: u64,
    pub session_id: Option<String>,
    pub tokens: Option<TokenInfo>,
    pub tool_calls: Vec<String>,
}

/// The mathematical value of an `AgentRecord`: strings become character
/// sequences, everything else is carried as is.
pub ghost struct RecordView {
    pub agent_type: AgentType,
    pub file_path: Seq<char>,
    pub created_at: Timestamp,
    pub modified_at: Timestamp,
    pub file_size: u64,
    pub session_id: Option<Seq<char>>,
    pub tokens: Option<TokenInfo>,
    pub tool_calls: Seq<Seq<char>>,
}

impl View for AgentRecord {
    type V = RecordView;

    open spec fn view(&self) -> RecordView {
        RecordView {
            agent_type: self.agent_type,
            file_path: self.file_path@,
            created_at: self.created_at,
            modified_at: self.modified_at,
            file_size: self.file_size,
            session_id: match self.session_id {
                Some(s) => Some(s@),
                None => None,
            },
            tokens: self.tokens,
            tool_calls: self.tool_calls.deep_view(),
        }
    }
}

impl DeepView for AgentRecord {
    type V = RecordView;

    open spec fn deep_view(&self) -> RecordView {
        self.view()
    }
}

impl Clone for AgentRecord {
    fn clone(&self) -> (r: Self)
        ensures
            r@ == self@,
    {
        let r = AgentRecord {
            agent_type: self.agent_type,
            file_path: self.file_path.clone(),
            created_at: self.created_at,
            modified_at: self.modified_at,
            file_size: self.file_size,
            session_id: match &self.session_id {
                Some(s) => Some(s.clone()),
                None => None,
            },
            tokens: self.tokens,
            tool_calls: clone_string_vec(&self.tool_calls),
        };
        assert(r@ == self@);
        r
    }
}

/// Clones a vector of strings; unlike a derived clone, the result is known
/// to carry the same character sequences.
pub fn clone_string_vec(v: &Vec<String>) -> (r: Vec<String>)
    ensures
        r.deep_view() == v.deep_view(),
{
    let mut r: Vec<String> = Vec::new();
    let mut i: usize = 0;
    while i < v.len()
        invariant
            i <= v.len(),
            r.len() == i,
            forall|j: int| 0 <= j < i ==> r@[j]@ == v@[j]@,
        decreases v.len() - i,
    {
        let s = v[i].clone();
        assert(s@ == v@[i as int]@);
        r.push(s);
        i += 1;
    }
    assert(r.deep_view() =~= v.deep_view());
    r
}

impl AgentRecord {
    /// The calendar day (days since the Unix epoch) of this record's
    /// creation time; heatmap buckets are keyed by it.
    pub fn date(&self) -> (d: i64)
        ensures
            d == self.created_at.spec_day(),
    {
        self.created_at.day()
    }
}

} // verus!
