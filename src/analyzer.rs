use vstd::prelude::*;
use crate::cfg::{falls_through, lemma_targets_shape, succ, ControlFlowGraph};
use crate::isa::{classify, spec_op_class, Instruction, OpClass};
use crate::risk::{
    finding, first_hit, hits, reach_within, reachable, report_from_findings, safe_store, spec_findings,
    spec_report, RiskReport, Rule, FRAME_REG, STACK_FRAME_SIZE,
};

verus! {

/// Instructions of the instruction set, with a graph built from them.
pub open spec fn analyzable(s: Seq<Instruction>, g: ControlFlowGraph) -> bool {
    &&& g.wf(s)
    &&& forall|k: int| 0 <= k < s.len() ==> spec_op_class((#[trigger] s[k]).opcode) is Some
}

/// The targets of a built graph are instructions.
proof fn lemma_graph_bounds(s: Seq<Instruction>, g: ControlFlowGraph)
    requires
        g.wf(s),
    ensures
        g.targets@.len() == s.len(),
        forall|q: int| 0 <= q < g.targets@.len() && (#[trigger] g.targets@[q]) is Some
            ==> g.targets@[q]->Some_0 < s.len(),
{
    lemma_targets_shape(s, 0);
}

fn insn_falls_through(i: &Instruction) -> (r: bool)
    requires
        spec_op_class(i.opcode) is Some,
    ensures
        r == falls_through(*i),
{
    match classify(i.opcode).unwrap() {
        OpClass::Jump | OpClass::Exit => false,
        _ => true,
    }
}

/// For each instruction, whether a path from the entry reaches it.
pub fn reachability(s: &Vec<Instruction>, g: &ControlFlowGraph) -> (r: Vec<bool>)
    requires
        analyzable(s@, *g),
    ensures
        r@.len() == s@.len(),
        forall|m: int| 0 <= m < s@.len() ==> #[trigger] r@[m] == reachable(s@, g.targets@, m),
{
    proof { lemma_graph_bounds(s@, *g); }
    let ghost tg = g.targets@;
    let n = s.len();
    let mut cur: Vec<bool> = Vec::new();
    let mut m: usize = 0;
    while m < n
        invariant
            n == s@.len(),
            m <= n,
            cur@.len() == m,
            forall|q: int| 0 <= q < m ==> #[trigger] cur@[q] == reach_within(s@, tg, 0, q),
        decreases n - m,
    {
        cur.push(m == 0);
        m = m + 1;
    }
    let mut round: usize = 0;
    while round < n
        invariant
            n == s@.len(),
            tg == g.targets@,
            analyzable(s@, *g),
            tg.len() == n,
            forall|q: int| 0 <= q < tg.len() && (#[trigger] tg[q]) is Some ==> tg[q]->Some_0 < n,
            round <= n,
            cur@.len() == n,
            forall|q: int| 0 <= q < n ==> #[trigger] cur@[q] == reach_within(s@, tg, round as nat, q),
        decreases n - round,
    {
        let mut next: Vec<bool> = Vec::new();
        let mut m: usize = 0;
        while m < n
            invariant
                n == s@.len(),
                m <= n,
                cur@.len() == n,
                next@.len() == m,
                forall|q: int| 0 <= q < m ==> #[trigger] next@[q] == cur@[q],
            decreases n - m,
        {
            next.push(cur[m]);
            m = m + 1;
        }
        let mut k: usize = 0;
        while k < n
            invariant
                n == s@.len(),
                tg == g.targets@,
                analyzable(s@, *g),
                tg.len() == n,
                forall|q: int| 0 <= q < tg.len() && (#[trigger] tg[q]) is Some ==> tg[q]->Some_0 < n,
                k <= n,
                cur@.len() == n,
                next@.len() == n,
                forall|q: int| 0 <= q < n ==> #[trigger] next@[q] == (cur@[q]
                    || exists|p: int| 0 <= p < k && cur@[p] && succ(s@, tg, p, q)),
            decreases n - k,
        {
            if cur[k] {
                let i = s[k];
                let ghost before = next@;
                if insn_falls_through(&i) && k + 1 < n {
                    next.set(k + 1, true);
                }
                let c = classify(i.opcode).unwrap();
                if c == OpClass::Jump || c == OpClass::CondJump {
                    if let Some(j) = g.targets[k] {
                        next.set(j, true);
                    }
                }
                assert forall|q: int| 0 <= q < n implies #[trigger] next@[q] == (cur@[q]
                    || exists|p: int| 0 <= p < k + 1 && cur@[p] && succ(s@, tg, p, q)) by {
                    if succ(s@, tg, k as int, q) {
                        assert(next@[q]);
                    } else {
                        assert(next@[q] == before[q]);
                    }
                    if exists|p: int| 0 <= p < k + 1 && cur@[p] && succ(s@, tg, p, q) {
                        let p = choose|p: int| 0 <= p < k + 1 && cur@[p] && succ(s@, tg, p, q);
                        if p < k {
                            assert(before[q]);
                        }
                    }
                }
            } else {
                assert forall|q: int| 0 <= q < n implies #[trigger] next@[q] == (cur@[q]
                    || exists|p: int| 0 <= p < k + 1 && cur@[p] && succ(s@, tg, p, q)) by {
                    if exists|p: int| 0 <= p < k + 1 && cur@[p] && succ(s@, tg, p, q) {
                        let p = choose|p: int| 0 <= p < k + 1 && cur@[p] && succ(s@, tg, p, q);
                        assert(p < k);
                    }
                }
            }
            k = k + 1;
        }
        assert forall|q: int| 0 <= q < n implies #[trigger] next@[q] == reach_within(s@, tg, (round + 1) as nat, q) by {
            if exists|p: int| 0 <= p < n && cur@[p] && succ(s@, tg, p, q) {
                let p = choose|p: int| 0 <= p < n && cur@[p] && succ(s@, tg, p, q);
                assert(reach_within(s@, tg, round as nat, p));
            }
            if exists|p: int| 0 <= p < s@.len() && reach_within(s@, tg, round as nat, p) && succ(s@, tg, p, q) {
                let p = choose|p: int| 0 <= p < s@.len() && reach_within(s@, tg, round as nat, p) && succ(s@, tg, p, q);
                assert(cur@[p]);
            }
        }
        cur = next;
        round = round + 1;
    }
    cur
}

fn store_is_safe(i: &Instruction) -> (r: bool)
    ensures
        r == safe_store(*i),
{
    let sz: i32 = match (i.opcode / 8) % 4 {
        0 => 4,
        1 => 2,
        2 => 1,
        _ => 8,
    };
    i.dst == FRAME_REG && -STACK_FRAME_SIZE <= i.off as i32 && i.off as i32 + sz <= 0
}

fn rule_hits(s: &Vec<Instruction>, g: &ControlFlowGraph, reach: &Vec<bool>, rule: Rule, k: usize) -> (r: bool)
    requires
        analyzable(s@, *g),
        k < s@.len(),
        reach@.len() == s@.len(),
        forall|m: int| 0 <= m < s@.len() ==> #[trigger] reach@[m] == reachable(s@, g.targets@, m),
    ensures
        r == hits(s@, g.targets@, rule, k as int),
{
    proof { lemma_graph_bounds(s@, *g); }
    let i = s[k];
    let c = classify(i.opcode).unwrap();
    match rule {
        Rule::ExternalCall => c == OpClass::Call,
        Rule::UnboundedLoop => {
            if c == OpClass::Jump || c == OpClass::CondJump {
                match g.targets[k] {
                    Some(j) => j <= k,
                    None => false,
                }
            } else {
                false
            }
        },
        Rule::UnreachableCode => !reach[k],
        Rule::UnsafeMemoryWrite => c == OpClass::Store && !store_is_safe(&i),
    }
}

fn first_trigger(s: &Vec<Instruction>, g: &ControlFlowGraph, reach: &Vec<bool>, rule: Rule) -> (r: Option<usize>)
    requires
        analyzable(s@, *g),
        reach@.len() == s@.len(),
        forall|m: int| 0 <= m < s@.len() ==> #[trigger] reach@[m] == reachable(s@, g.targets@, m),
    ensures
        match r {
            Some(k) => k < s@.len() && first_hit(s@, g.targets@, rule, 0) == Some(k as int),
            None => first_hit(s@, g.targets@, rule, 0) is None,
        },
{
    let mut k: usize = 0;
    while k < s.len()
        invariant
            analyzable(s@, *g),
            reach@.len() == s@.len(),
            forall|m: int| 0 <= m < s@.len() ==> #[trigger] reach@[m] == reachable(s@, g.targets@, m),
            k <= s@.len(),
            first_hit(s@, g.targets@, rule, 0) == first_hit(s@, g.targets@, rule, k as nat),
        decreases s@.len() - k,
    {
        if rule_hits(s, g, reach, rule, k) {
            return Some(k);
        }
        k = k + 1;
    }
    None
}

/// Applies the rules, in order, to a program and its graph, and reports what they find.
pub fn analyze(instrs: &Vec<Instruction>, cfg: &ControlFlowGraph) -> (r: RiskReport)
    requires
        analyzable(instrs@, *cfg),
    ensures
        r@ == spec_report(spec_findings(instrs@, cfg.targets@)),
{
    let reach = reachability(instrs, cfg);
    let rules = [Rule::ExternalCall, Rule::UnboundedLoop, Rule::UnreachableCode, Rule::UnsafeMemoryWrite];
    let mut fs: Vec<(Rule, usize)> = Vec::new();
    let mut q: usize = 0;
    while q < 4
        invariant
            analyzable(instrs@, *cfg),
            reach@.len() == instrs@.len(),
            forall|m: int| 0 <= m < instrs@.len() ==> #[trigger] reach@[m] == reachable(instrs@, cfg.targets@, m),
            rules@ == seq![Rule::ExternalCall, Rule::UnboundedLoop, Rule::UnreachableCode, Rule::UnsafeMemoryWrite],
            q <= 4,
            fs@ == findings_upto(instrs@, cfg.targets@, q as int),
        decreases 4 - q,
    {
        let rule = rules[q];
        if let Some(k) = first_trigger(instrs, cfg, &reach, rule) {
            fs.push((rule, instrs[k].offset));
        } else {
            assert(finding(instrs@, cfg.targets@, rule) =~= seq![]);
        }
        proof {
            assert(findings_upto(instrs@, cfg.targets@, q + 1)
                == findings_upto(instrs@, cfg.targets@, q as int) + finding(instrs@, cfg.targets@, rule));
        }
        q = q + 1;
    }
    proof {
        let s = instrs@;
        let tg = cfg.targets@;
        assert(spec_findings(s, tg) =~= findings_upto(s, tg, 4));
    }
    report_from_findings(&fs)
}

/// The findings of the first `q` rules, in order.
spec fn findings_upto(s: Seq<Instruction>, tg: Seq<Option<usize>>, q: int) -> Seq<(Rule, usize)> {
    let f0 = if q >= 1 { finding(s, tg, Rule::ExternalCall) } else { seq![] };
    let f1 = if q >= 2 { finding(s, tg, Rule::UnboundedLoop) } else { seq![] };
    let f2 = if q >= 3 { finding(s, tg, Rule::UnreachableCode) } else { seq![] };
    let f3 = if q >= 4 { finding(s, tg, Rule::UnsafeMemoryWrite) } else { seq![] };
    f0 + f1 + f2 + f3
}

} // verus!
