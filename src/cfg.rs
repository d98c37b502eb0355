use vstd::prelude::*;
use crate::error::CfgError;
use crate::isa::{classify, spec_op_class, Instruction, OpClass};

verus! {

/// The first index from `j` on whose instruction starts at byte offset `t`.
pub open spec fn find_from(s: Seq<Instruction>, t: int, j: nat) -> Option<int>
    decreases s.len() - j,
{
    if j >= s.len() {
        None
    } else if s[j as int].offset == t {
        Some(j as int)
    } else {
        find_from(s, t, j + 1)
    }
}

/// Whether the instruction closes a basic block.
pub open spec fn ends_block(i: Instruction) -> bool {
    match i.class() {
        OpClass::Jump | OpClass::CondJump | OpClass::Call | OpClass::Exit => true,
        _ => false,
    }
}

/// Whether execution may resume at the next instruction after this one.
pub open spec fn falls_through(i: Instruction) -> bool {
    match i.class() {
        OpClass::Jump | OpClass::Exit => false,
        _ => true,
    }
}

pub open spec fn cons_target(t: Option<usize>, r: Result<Seq<Option<usize>>, CfgError>) -> Result<Seq<Option<usize>>, CfgError> {
    match r {
        Ok(s) => Ok(seq![t] + s),
        Err(e) => Err(e),
    }
}

pub open spec fn prefix_targets(a: Seq<Option<usize>>, r: Result<Seq<Option<usize>>, CfgError>) -> Result<Seq<Option<usize>>, CfgError> {
    match r {
        Ok(s) => Ok(a + s),
        Err(e) => Err(e),
    }
}

/// Resolves the branches from instruction `k` on. A branch whose target is not
/// the start of an instruction is an error at the branch; so is a conditional
/// branch or a call in the last position, whose continuation does not exist.
/// The end of the buffer after any other instruction ends the program.
pub open spec fn targets_from(s: Seq<Instruction>, k: nat) -> Result<Seq<Option<usize>>, CfgError>
    decreases s.len() - k,
{
    if k >= s.len() {
        Ok(seq![])
    } else {
        let i = s[k as int];
        if i.is_branch() {
            match find_from(s, i.spec_target(), 0) {
                None => Err(CfgError::InvalidBranchTarget(i.offset, i.spec_target() as i128)),
                Some(j) => {
                    if i.class() == OpClass::CondJump && k + 1 == s.len() {
                        Err(CfgError::UnterminatedProgram(i.offset))
                    } else {
                        cons_target(Some(j as usize), targets_from(s, k + 1))
                    }
                },
            }
        } else if i.class() == OpClass::Call && k + 1 == s.len() {
            Err(CfgError::UnterminatedProgram(i.offset))
        } else {
            cons_target(None, targets_from(s, k + 1))
        }
    }
}

/// For each instruction, the index its branch resolves to (`None` for others).
pub open spec fn spec_targets(s: Seq<Instruction>) -> Result<Seq<Option<usize>>, CfgError> {
    targets_from(s, 0)
}

/// Whether a basic block starts at instruction `m`: the entry, every branch
/// target, and every instruction after one that closes a block.
pub open spec fn is_leader(s: Seq<Instruction>, tg: Seq<Option<usize>>, m: int) -> bool {
    m == 0 || (exists|k: int| 0 <= k < tg.len() && tg[k] == Some(m as usize))
        || (m > 0 && ends_block(s[m - 1]))
}

/// Whether control may pass from instruction `k` to instruction `m`.
pub open spec fn succ(s: Seq<Instruction>, tg: Seq<Option<usize>>, k: int, m: int) -> bool {
    &&& 0 <= k < s.len()
    &&& 0 <= m < s.len()
    &&& ((falls_through(s[k]) && m == k + 1) || (s[k].is_branch() && tg[k] == Some(m as usize)))
}

/// The control-flow graph over instructions; basic blocks run from one
/// leader up to the next.
pub struct ControlFlowGraph {
    /// For each instruction, the index that its branch resolves to.
    pub targets: Vec<Option<usize>>,
    /// For each instruction, whether a basic block starts there.
    pub leaders: Vec<bool>,
}

impl ControlFlowGraph {
    /// The graph was built from `s`.
    pub open spec fn wf(&self, s: Seq<Instruction>) -> bool {
        &&& spec_targets(s) == Ok::<Seq<Option<usize>>, CfgError>(self.targets@)
        &&& self.leaders@.len() == s.len()
        &&& forall|m: int| 0 <= m < s.len() ==> #[trigger] self.leaders@[m] == is_leader(s, self.targets@, m)
    }

    /// Links `instrs` into a control-flow graph.
    pub fn build(instrs: &Vec<Instruction>) -> (r: Result<ControlFlowGraph, CfgError>)
        requires
            forall|k: int| 0 <= k < instrs@.len() ==> spec_op_class((#[trigger] instrs@[k]).opcode) is Some,
        ensures
            match r {
                Ok(g) => g.wf(instrs@),
                Err(e) => spec_targets(instrs@) == Err::<Seq<Option<usize>>, CfgError>(e),
            },
    {
        let targets = resolve_targets(instrs)?;
        proof { lemma_targets_shape(instrs@, 0); }
        let leaders = mark_leaders(instrs, &targets);
        Ok(ControlFlowGraph { targets, leaders })
    }
}

/// A resolution has one entry per instruction, and every target is an instruction.
pub proof fn lemma_targets_shape(s: Seq<Instruction>, k: nat)
    ensures
        targets_from(s, k) is Ok ==> {
            let t = targets_from(s, k)->Ok_0;
            &&& k <= s.len() ==> t.len() == s.len() - k
            &&& forall|q: int| 0 <= q < t.len() && (#[trigger] t[q]) is Some ==> t[q]->Some_0 < s.len()
        },
    decreases s.len() - k,
{
    if k < s.len() {
        lemma_targets_shape(s, k + 1);
        lemma_find_from_bound(s, s[k as int].spec_target(), 0);
        if let Ok(t) = targets_from(s, k) {
            let rest = targets_from(s, k + 1)->Ok_0;
            assert forall|q: int| 0 <= q < t.len() && (#[trigger] t[q]) is Some implies t[q]->Some_0 < s.len() by {
                if q > 0 {
                    assert(t[q] == rest[q - 1]);
                }
            }
        }
    }
}

proof fn lemma_find_from_bound(s: Seq<Instruction>, t: int, j: nat)
    ensures
        find_from(s, t, j) is Some ==> j <= find_from(s, t, j)->Some_0 < s.len()
            && s[find_from(s, t, j)->Some_0].offset == t,
    decreases s.len() - j,
{
    if j < s.len() {
        lemma_find_from_bound(s, t, j + 1);
    }
}

fn find_offset(s: &Vec<Instruction>, t: i128) -> (r: Option<usize>)
    ensures
        match r {
            Some(j) => find_from(s@, t as int, 0) == Some(j as int),
            None => find_from(s@, t as int, 0) is None,
        },
{
    let mut j: usize = 0;
    while j < s.len()
        invariant
            j <= s@.len(),
            find_from(s@, t as int, 0) == find_from(s@, t as int, j as nat),
        decreases s@.len() - j,
    {
        if s[j].offset as i128 == t {
            return Some(j);
        }
        j = j + 1;
    }
    None
}

fn resolve_targets(s: &Vec<Instruction>) -> (r: Result<Vec<Option<usize>>, CfgError>)
    requires
        forall|k: int| 0 <= k < s@.len() ==> spec_op_class((#[trigger] s@[k]).opcode) is Some,
    ensures
        match r {
            Ok(v) => spec_targets(s@) == Ok::<Seq<Option<usize>>, CfgError>(v@),
            Err(e) => spec_targets(s@) == Err::<Seq<Option<usize>>, CfgError>(e),
        },
{
    let n = s.len();
    let mut out: Vec<Option<usize>> = Vec::new();
    let mut k: usize = 0;
    while k < n
        invariant
            n == s@.len(),
            k <= n,
            forall|q: int| 0 <= q < s@.len() ==> spec_op_class((#[trigger] s@[q]).opcode) is Some,
            spec_targets(s@) == prefix_targets(out@, targets_from(s@, k as nat)),
        decreases n - k,
    {
        let i = s[k];
        let c = classify(i.opcode).unwrap();
        let t: Option<usize>;
        if c == OpClass::Jump || c == OpClass::CondJump {
            let tgt = i.target();
            match find_offset(s, tgt) {
                None => {
                    return Err(CfgError::InvalidBranchTarget(i.offset, tgt));
                },
                Some(j) => {
                    if c == OpClass::CondJump && k + 1 == n {
                        return Err(CfgError::UnterminatedProgram(i.offset));
                    }
                    t = Some(j);
                },
            }
        } else {
            if c == OpClass::Call && k + 1 == n {
                return Err(CfgError::UnterminatedProgram(i.offset));
            }
            t = None;
        }
        proof {
            if let Ok(rest) = targets_from(s@, (k + 1) as nat) {
                assert(out@ + (seq![t] + rest) =~= out@.push(t) + rest);
            }
        }
        out.push(t);
        k = k + 1;
    }
    assert(out@ + seq![] =~= out@);
    Ok(out)
}

fn mark_leaders(s: &Vec<Instruction>, tg: &Vec<Option<usize>>) -> (r: Vec<bool>)
    requires
        tg@.len() == s@.len(),
        forall|k: int| 0 <= k < s@.len() ==> spec_op_class((#[trigger] s@[k]).opcode) is Some,
        forall|k: int| 0 <= k < tg@.len() && (#[trigger] tg@[k]) is Some ==> tg@[k]->Some_0 < s@.len(),
    ensures
        r@.len() == s@.len(),
        forall|m: int| 0 <= m < s@.len() ==> #[trigger] r@[m] == is_leader(s@, tg@, m),
{
    let n = s.len();
    let mut marks: Vec<bool> = Vec::new();
    let mut m: usize = 0;
    while m < n
        invariant
            n == s@.len(),
            m <= n,
            marks@.len() == m,
            forall|q: int| 0 <= q < s@.len() ==> spec_op_class((#[trigger] s@[q]).opcode) is Some,
            forall|q: int| 0 <= q < m ==> #[trigger] marks@[q] == (q == 0 || (q > 0 && ends_block(s@[q - 1]))),
        decreases n - m,
    {
        let lead = if m == 0 {
            true
        } else {
            match classify(s[m - 1].opcode).unwrap() {
                OpClass::Jump | OpClass::CondJump | OpClass::Call | OpClass::Exit => true,
                _ => false,
            }
        };
        marks.push(lead);
        m = m + 1;
    }
    let mut k: usize = 0;
    while k < n
        invariant
            n == s@.len(),
            tg@.len() == n,
            k <= n,
            marks@.len() == n,
            forall|q: int| 0 <= q < tg@.len() && (#[trigger] tg@[q]) is Some ==> tg@[q]->Some_0 < s@.len(),
            forall|q: int| 0 <= q < n ==> #[trigger] marks@[q] == (q == 0
                || (exists|p: int| 0 <= p < k && tg@[p] == Some(q as usize))
                || (q > 0 && ends_block(s@[q - 1]))),
        decreases n - k,
    {
        if let Some(j) = tg[k] {
            marks.set(j, true);
            assert forall|q: int| 0 <= q < n implies #[trigger] marks@[q] == (q == 0
                || (exists|p: int| 0 <= p < k + 1 && tg@[p] == Some(q as usize))
                || (q > 0 && ends_block(s@[q - 1]))) by {
                if q == j {
                    assert(tg@[k as int] == Some(q as usize));
                }
            }
        }
        k = k + 1;
    }
    marks
}

/// A maximal run of instructions `start..end` with one entry and one exit.
#[derive(Debug, Clone, Copy, PartialEq, Eq, Structural)]
pub struct BasicBlock {
    pub start: usize,
    pub end: usize,
}

/// `bs` cuts `0..n` into consecutive non-empty runs, each starting at a
/// leader and holding no other leader.
pub open spec fn partitions(bs: Seq<BasicBlock>, leaders: Seq<bool>, n: int) -> bool {
    &&& (bs.len() == 0) == (n == 0)
    &&& bs.len() > 0 ==> bs[0].start == 0 && bs.last().end == n
    &&& forall|i: int| 0 <= i < bs.len() - 1 ==> #[trigger] bs[i].end == bs[i + 1].start
    &&& forall|i: int| 0 <= i < bs.len() ==> (#[trigger] bs[i]).start < bs[i].end && leaders[bs[i].start as int]
    &&& forall|i: int, m: int| #![trigger bs[i], leaders[m]] 0 <= i < bs.len() && bs[i].start < m < bs[i].end ==> !leaders[m]
}

impl ControlFlowGraph {
    /// The basic blocks, in buffer order.
    pub fn blocks(&self) -> (r: Vec<BasicBlock>)
        requires
            self.leaders@.len() > 0 ==> self.leaders@[0],
        ensures
            partitions(r@, self.leaders@, self.leaders@.len() as int),
    {
        let n = self.leaders.len();
        let mut out: Vec<BasicBlock> = Vec::new();
        if n == 0 {
            return out;
        }
        let mut start: usize = 0;
        let mut m: usize = 1;
        while m < n
            invariant
                n == self.leaders@.len(),
                self.leaders@[0],
                start < m <= n,
                self.leaders@[start as int],
                forall|q: int| start < q < m ==> !self.leaders@[q],
                out@.len() == 0 ==> start == 0,
                out@.len() > 0 ==> out@[0].start == 0 && out@.last().end == start,
                forall|i: int| 0 <= i < out@.len() - 1 ==> #[trigger] out@[i].end == out@[i + 1].start,
                forall|i: int| 0 <= i < out@.len() ==> (#[trigger] out@[i]).start < out@[i].end && self.leaders@[out@[i].start as int],
                forall|i: int, q: int| #![trigger out@[i], self.leaders@[q]] 0 <= i < out@.len() && out@[i].start < q < out@[i].end ==> !self.leaders@[q],
            decreases n - m,
        {
            if self.leaders[m] {
                out.push(BasicBlock { start, end: m });
                start = m;
            }
            m = m + 1;
        }
        out.push(BasicBlock { start, end: n });
        out
    }
}

} // verus!
