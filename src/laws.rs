use vstd::prelude::*;
use crate::cfg::{find_from, spec_targets, targets_from};
use crate::disassembler::{decode_from, spec_decode, total_width};
use crate::error::{CfgError, LenzError};
use crate::isa::{insn_at, spec_op_class, Instruction, OpClass, OP_LDDW};
use crate::risk::{spec_findings, spec_report, total_weight, ReportView, Rule};
use crate::scanner::{scan_view, spec_scan};
use crate::constants::{MAX_RISK_SCORE, SAFE_THRESHOLD};
use crate::RiskReport;

verus! {

/// Scanning is a function of the bytes: two scans of one buffer give equal
/// results, reports equal field by field.
pub proof fn lemma_scan_deterministic(b: Seq<u8>, r1: Result<RiskReport, LenzError>, r2: Result<RiskReport, LenzError>)
    requires
        scan_view(r1) == spec_scan(b),
        scan_view(r2) == spec_scan(b),
    ensures
        scan_view(r1) == scan_view(r2),
{
}

/// The empty buffer is refused with `EmptyBytecode`.
pub proof fn lemma_empty_input()
    ensures
        spec_scan(Seq::<u8>::empty()) == Err::<ReportView, LenzError>(LenzError::EmptyBytecode),
{
}

/// Every report has a score within bounds and the verdict that the threshold gives.
pub proof fn lemma_report_bound(fs: Seq<(Rule, usize)>)
    ensures
        spec_report(fs).risk_score <= MAX_RISK_SCORE,
        spec_report(fs).is_safe == (spec_report(fs).risk_score < SAFE_THRESHOLD),
{
    lemma_total_weight_nonneg(fs);
}

proof fn lemma_total_weight_nonneg(fs: Seq<(Rule, usize)>)
    ensures
        total_weight(fs) >= 0,
    decreases fs.len(),
{
    if fs.len() > 0 {
        lemma_total_weight_nonneg(fs.drop_last());
    }
}

/// A successful scan scores between 0 and the maximum, and is judged safe
/// exactly when the score is under the threshold.
pub proof fn lemma_score_bound(b: Seq<u8>)
    ensures
        spec_scan(b) is Ok ==> spec_scan(b)->Ok_0.risk_score <= MAX_RISK_SCORE
            && spec_scan(b)->Ok_0.is_safe == (spec_scan(b)->Ok_0.risk_score < SAFE_THRESHOLD),
{
    if let Ok(s) = spec_decode(b) {
        if let Ok(tg) = spec_targets(s) {
            lemma_report_bound(spec_findings(s, tg));
        }
    }
}

/// Decoding from `pos` meets a two-slot opcode in the last slot.
pub open spec fn wide_cut(b: Seq<u8>, pos: nat) -> bool
    decreases b.len() - pos,
{
    if pos + 8 > b.len() {
        false
    } else if b[pos as int] == OP_LDDW {
        if pos + 16 > b.len() { true } else { wide_cut(b, pos + 16) }
    } else {
        wide_cut(b, pos + 8)
    }
}

/// A buffer of whole slots whose every slot starts with an opcode of the
/// instruction set decodes, unless a two-slot instruction is cut off at the
/// end; and any successful decoding covers the buffer exactly.
pub proof fn lemma_decode_total(b: Seq<u8>)
    requires
        b.len() % 8 == 0,
    ensures
        spec_decode(b) is Ok ==> total_width(spec_decode(b)->Ok_0) == b.len(),
        (forall|p: int| 0 <= p < b.len() && p % 8 == 0 ==> spec_op_class(#[trigger] b[p]) is Some)
            && !wide_cut(b, 0) ==> spec_decode(b) is Ok,
{
    lemma_decode_from_total(b, 0);
}

proof fn lemma_decode_from_total(b: Seq<u8>, pos: nat)
    requires
        b.len() % 8 == 0,
        pos % 8 == 0,
        pos <= b.len(),
    ensures
        decode_from(b, pos) is Ok ==> pos + total_width(decode_from(b, pos)->Ok_0) == b.len(),
        (forall|p: int| 0 <= p < b.len() && p % 8 == 0 ==> spec_op_class(#[trigger] b[p]) is Some)
            && !wide_cut(b, pos) ==> decode_from(b, pos) is Ok,
    decreases b.len() - pos,
{
    if pos + 8 <= b.len() {
        let w: nat = if b[pos as int] == OP_LDDW { 16 } else { 8 };
        assert(spec_op_class(OP_LDDW) == Some(OpClass::LoadImm64));
        if pos + w <= b.len() {
            lemma_decode_from_total(b, pos + w);
            let i = insn_at(b, pos as int, w == 16);
            if let Ok(t) = decode_from(b, pos + w) {
                assert((seq![i] + t).subrange(1, (seq![i] + t).len() as int) =~= t);
                assert(total_width(seq![i] + t) == i.width() + total_width(t));
            }
        }
    }
}

/// A buffer whose length is not a whole number of slots is refused with
/// `ParseError` at the offset where the partial slot starts.
pub proof fn lemma_truncation(b: Seq<u8>)
    requires
        b.len() % 8 != 0,
    ensures
        spec_scan(b) == Err::<ReportView, LenzError>(LenzError::ParseError((b.len() - b.len() % 8) as usize)),
{
}

proof fn lemma_find_none(s: Seq<Instruction>, t: int, j: nat)
    requires
        forall|q: int| 0 <= q < s.len() ==> (#[trigger] s[q]).offset != t,
    ensures
        find_from(s, t, j) is None,
    decreases s.len() - j,
{
    if j < s.len() {
        lemma_find_none(s, t, j + 1);
    }
}

/// A branch whose target is no instruction's offset makes graph building
/// fail; the error cites that branch when no earlier branch is at fault.
pub proof fn lemma_invalid_target(s: Seq<Instruction>, k: int)
    requires
        0 <= k < s.len(),
        s[k].is_branch(),
        forall|q: int| 0 <= q < s.len() ==> (#[trigger] s[q]).offset != s[k].spec_target(),
    ensures
        spec_targets(s) is Err,
        (forall|j: int| 0 <= j < k && (#[trigger] s[j]).is_branch() ==> find_from(s, s[j].spec_target(), 0) is Some)
            ==> spec_targets(s) == Err::<Seq<Option<usize>>, CfgError>(
                CfgError::InvalidBranchTarget(s[k].offset, s[k].spec_target() as i128)),
{
    lemma_find_none(s, s[k].spec_target(), 0);
    lemma_targets_err(s, k, 0);
}

proof fn lemma_targets_err(s: Seq<Instruction>, k: int, i: nat)
    requires
        i <= k < s.len(),
        s[k].is_branch(),
        find_from(s, s[k].spec_target(), 0) is None,
    ensures
        targets_from(s, i) is Err,
        (forall|j: int| i <= j < k && (#[trigger] s[j]).is_branch() ==> find_from(s, s[j].spec_target(), 0) is Some)
            ==> targets_from(s, i) == Err::<Seq<Option<usize>>, CfgError>(
                CfgError::InvalidBranchTarget(s[k].offset, s[k].spec_target() as i128)),
    decreases k - i,
{
    if i < k {
        lemma_targets_err(s, k, i + 1);
    }
}

/// At the level of a scan: such a branch in a decoded buffer makes the scan
/// fail, with `ParseError` at the branch when no earlier branch is at fault.
pub proof fn lemma_scan_invalid_target(b: Seq<u8>, k: int)
    requires
        spec_decode(b) is Ok,
        0 <= k < spec_decode(b)->Ok_0.len(),
        spec_decode(b)->Ok_0[k].is_branch(),
        forall|q: int| 0 <= q < spec_decode(b)->Ok_0.len()
            ==> (#[trigger] spec_decode(b)->Ok_0[q]).offset != spec_decode(b)->Ok_0[k].spec_target(),
    ensures
        spec_scan(b) is Err,
        ({
            let s = spec_decode(b)->Ok_0;
            (forall|j: int| 0 <= j < k && (#[trigger] s[j]).is_branch() ==> find_from(s, s[j].spec_target(), 0) is Some)
                ==> spec_scan(b) == Err::<ReportView, LenzError>(LenzError::ParseError(s[k].offset))
        }),
{
    let s = spec_decode(b)->Ok_0;
    lemma_invalid_target(s, k);
}

} // verus!
