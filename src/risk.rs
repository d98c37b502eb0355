use vstd::prelude::*;
use crate::cfg::succ;
use crate::constants::{MAX_RISK_SCORE, SAFE_THRESHOLD};
use crate::isa::{Instruction, OpClass};

verus! {

/// Size in bytes of the stack frame that register 10 points past.
pub const STACK_FRAME_SIZE: i32 = 4096;

/// The frame-pointer register.
pub const FRAME_REG: u8 = 10;

/// The rules of the analysis, in the order they are evaluated.
#[derive(Debug, Clone, Copy, PartialEq, Eq, Structural)]
pub enum Rule {
    ExternalCall,
    UnboundedLoop,
    UnreachableCode,
    UnsafeMemoryWrite,
}

pub open spec fn rule_weight(r: Rule) -> int {
    match r {
        Rule::ExternalCall => 30,
        Rule::UnboundedLoop => 25,
        Rule::UnreachableCode => 5,
        Rule::UnsafeMemoryWrite => 40,
    }
}

pub open spec fn rule_name(r: Rule) -> Seq<char> {
    match r {
        Rule::ExternalCall => "external-call"@,
        Rule::UnboundedLoop => "unbounded-loop"@,
        Rule::UnreachableCode => "unreachable-code"@,
        Rule::UnsafeMemoryWrite => "unsafe-memory-write"@,
    }
}

impl Rule {
    /// Severity weight that the rule adds to the score.
    pub fn weight(&self) -> (r: u8)
        ensures
            r == rule_weight(*self),
    {
        match self {
            Rule::ExternalCall => 30,
            Rule::UnboundedLoop => 25,
            Rule::UnreachableCode => 5,
            Rule::UnsafeMemoryWrite => 40,
        }
    }

    /// The flag that the rule raises.
    pub fn name(&self) -> (r: String)
        ensures
            r@ == rule_name(*self),
    {
        match self {
            Rule::ExternalCall => "external-call".to_owned(),
            Rule::UnboundedLoop => "unbounded-loop".to_owned(),
            Rule::UnreachableCode => "unreachable-code".to_owned(),
            Rule::UnsafeMemoryWrite => "unsafe-memory-write".to_owned(),
        }
    }
}

/// Bytes written by a store opcode, from its size bits.
pub open spec fn access_size(op: u8) -> int {
    let sz = (op / 8) % 4;
    if sz == 0 { 4 } else if sz == 1 { 2 } else if sz == 2 { 1 } else { 8 }
}

/// A store is safe when it writes wholly inside the stack frame below the frame pointer.
pub open spec fn safe_store(i: Instruction) -> bool {
    i.dst == FRAME_REG && -STACK_FRAME_SIZE <= i.off && i.off + access_size(i.opcode) <= 0
}

/// Instruction `m` can be reached from the entry in at most `r` steps.
pub open spec fn reach_within(s: Seq<Instruction>, tg: Seq<Option<usize>>, r: nat, m: int) -> bool
    decreases r,
{
    if r == 0 {
        m == 0 && s.len() > 0
    } else {
        reach_within(s, tg, (r - 1) as nat, m)
            || exists|p: int| 0 <= p < s.len() && reach_within(s, tg, (r - 1) as nat, p) && succ(s, tg, p, m)
    }
}

/// Instruction `m` can be reached from the entry; no path needs more steps than there are instructions.
pub open spec fn reachable(s: Seq<Instruction>, tg: Seq<Option<usize>>, m: int) -> bool {
    reach_within(s, tg, s.len(), m)
}

/// Whether the instruction at index `k` triggers `rule`. No bound analysis is
/// made, so every branch back to itself or an earlier instruction counts as an
/// unbounded loop.
pub open spec fn hits(s: Seq<Instruction>, tg: Seq<Option<usize>>, rule: Rule, k: int) -> bool {
    match rule {
        Rule::ExternalCall => s[k].class() == OpClass::Call,
        Rule::UnboundedLoop => s[k].is_branch() && tg[k] is Some && tg[k]->Some_0 <= k,
        Rule::UnreachableCode => !reachable(s, tg, k),
        Rule::UnsafeMemoryWrite => s[k].class() == OpClass::Store && !safe_store(s[k]),
    }
}

/// The first index from `k` on that triggers `rule`.
pub open spec fn first_hit(s: Seq<Instruction>, tg: Seq<Option<usize>>, rule: Rule, k: nat) -> Option<int>
    decreases s.len() - k,
{
    if k >= s.len() {
        None
    } else if hits(s, tg, rule, k as int) {
        Some(k as int)
    } else {
        first_hit(s, tg, rule, k + 1)
    }
}

/// The finding of one rule: the rule and the offset of its first triggering instruction.
pub open spec fn finding(s: Seq<Instruction>, tg: Seq<Option<usize>>, rule: Rule) -> Seq<(Rule, usize)> {
    match first_hit(s, tg, rule, 0) {
        Some(k) => seq![(rule, s[k].offset)],
        None => seq![],
    }
}

/// All findings, in rule order.
pub open spec fn spec_findings(s: Seq<Instruction>, tg: Seq<Option<usize>>) -> Seq<(Rule, usize)> {
    finding(s, tg, Rule::ExternalCall) + finding(s, tg, Rule::UnboundedLoop)
        + finding(s, tg, Rule::UnreachableCode) + finding(s, tg, Rule::UnsafeMemoryWrite)
}

/// Sum of the weights of the findings.
pub open spec fn total_weight(fs: Seq<(Rule, usize)>) -> int
    decreases fs.len(),
{
    if fs.len() == 0 {
        0
    } else {
        total_weight(fs.drop_last()) + rule_weight(fs.last().0)
    }
}

/// The score: the total weight, saturated at the maximum score.
pub open spec fn spec_score(fs: Seq<(Rule, usize)>) -> int {
    if total_weight(fs) > MAX_RISK_SCORE { MAX_RISK_SCORE as int } else { total_weight(fs) }
}

/// `a` outranks `b`: a higher weight, or an equal weight found at a smaller offset.
pub open spec fn outranks(a: (Rule, usize), b: (Rule, usize)) -> bool {
    rule_weight(a.0) > rule_weight(b.0) || (rule_weight(a.0) == rule_weight(b.0) && a.1 < b.1)
}

/// The headline finding; among findings that rank alike, the earlier one.
pub open spec fn primary(fs: Seq<(Rule, usize)>) -> Option<(Rule, usize)>
    decreases fs.len(),
{
    if fs.len() == 0 {
        None
    } else {
        match primary(fs.drop_last()) {
            None => Some(fs.last()),
            Some(b) => if outranks(fs.last(), b) { Some(fs.last()) } else { Some(b) },
        }
    }
}

pub open spec fn primary_name(fs: Seq<(Rule, usize)>) -> Seq<char> {
    match primary(fs) {
        Some(f) => rule_name(f.0),
        None => "None"@,
    }
}

/// The outcome of a scan.
#[derive(Debug, Clone)]
pub struct RiskReport {
    /// Sum of the weights of the findings, at most the maximum score.
    pub risk_score: u8,
    /// Whether the score is under the safety threshold.
    pub is_safe: bool,
    /// Flag of the headline finding, or "None".
    pub primary_risk: String,
    /// Flags of all findings, in rule order.
    pub flags: Vec<String>,
}

/// A report as plain values: score, verdict, headline and flags.
pub struct ReportView {
    pub risk_score: u8,
    pub is_safe: bool,
    pub primary_risk: Seq<char>,
    pub flags: Seq<Seq<char>>,
}

impl View for RiskReport {
    type V = ReportView;

    open spec fn view(&self) -> ReportView {
        ReportView {
            risk_score: self.risk_score,
            is_safe: self.is_safe,
            primary_risk: self.primary_risk@,
            flags: self.flags@.map_values(|f: String| f@),
        }
    }
}

/// The report that a list of findings gives.
pub open spec fn spec_report(fs: Seq<(Rule, usize)>) -> ReportView {
    ReportView {
        risk_score: spec_score(fs) as u8,
        is_safe: spec_score(fs) < SAFE_THRESHOLD,
        primary_risk: primary_name(fs),
        flags: fs.map_values(|f: (Rule, usize)| rule_name(f.0)),
    }
}

impl Default for RiskReport {
    fn default() -> (r: RiskReport)
        ensures
            r@ == spec_report(seq![]),
    {
        let r = RiskReport { risk_score: 0, is_safe: true, primary_risk: "None".to_owned(), flags: Vec::new() };
        assert(r@.flags =~= spec_report(seq![]).flags);
        r
    }
}

/// Builds the report for `fs`: the weights summed and saturated, the verdict
/// from the threshold, the headline finding and every flag in order.
pub fn report_from_findings(fs: &Vec<(Rule, usize)>) -> (r: RiskReport)
    ensures
        r@ == spec_report(fs@),
{
    let mut total: u128 = 0;
    let mut best: Option<(Rule, usize)> = None;
    let mut flags: Vec<String> = Vec::new();
    let mut k: usize = 0;
    while k < fs.len()
        invariant
            k <= fs@.len(),
            total == total_weight(fs@.subrange(0, k as int)),
            total <= 40 * k,
            best == primary(fs@.subrange(0, k as int)),
            flags@.len() == k,
            forall|j: int| 0 <= j < k ==> #[trigger] flags@[j]@ == rule_name(fs@[j].0),
        decreases fs@.len() - k,
    {
        let f = fs[k];
        proof {
            assert(fs@.subrange(0, k + 1).drop_last() =~= fs@.subrange(0, k as int));
            assert(fs@.subrange(0, k + 1).last() == f);
        }
        total = total + f.0.weight() as u128;
        best = match best {
            None => Some(f),
            Some(b) => {
                let w = f.0.weight();
                let wb = b.0.weight();
                if w > wb || (w == wb && f.1 < b.1) {
                    Some(f)
                } else {
                    Some(b)
                }
            },
        };
        flags.push(f.0.name());
        k = k + 1;
    }
    assert(fs@.subrange(0, k as int) =~= fs@);
    assert(flags@.map_values(|f: String| f@) =~= fs@.map_values(|f: (Rule, usize)| rule_name(f.0)));
    let score: u8 = if total > MAX_RISK_SCORE as u128 { MAX_RISK_SCORE } else { total as u8 };
    let primary_risk = match best {
        Some(b) => b.0.name(),
        None => "None".to_owned(),
    };
    RiskReport { risk_score: score, is_safe: score < SAFE_THRESHOLD, primary_risk, flags }
}

} // verus!
