use lenz_core::analyzer::analyze;
use lenz_core::cfg::{BasicBlock, ControlFlowGraph};
use lenz_core::constants;
use lenz_core::error::{CfgError, DecodeError};
use lenz_core::risk::{report_from_findings, Rule};
use lenz_core::{pad_buffer, AuditEngine, Disassembler, LenzError, RiskReport};

fn slot(op: u8, regs: u8, off: i16, imm: i32) -> Vec<u8> {
    let mut v = vec![op, regs];
    v.extend_from_slice(&off.to_le_bytes());
    v.extend_from_slice(&imm.to_le_bytes());
    v
}

fn program(slots: &[Vec<u8>]) -> Vec<u8> {
    slots.concat()
}

const EXIT: u8 = 0x95;
const CALL: u8 = 0x85;
const JA: u8 = 0x05;
const JEQ_IMM: u8 = 0x15;
const STXDW: u8 = 0x7b;
const STW_IMM: u8 = 0x62;
const MOV64_IMM: u8 = 0xb7;

#[test]
fn test_library_exports() {
    assert_eq!(constants::MAX_RISK_SCORE, 100);
}

#[test]
fn empty_input_is_refused() {
    assert_eq!(AuditEngine::scan(&[]).unwrap_err(), LenzError::EmptyBytecode);
}

#[test]
fn single_noop_is_safe() {
    let r = AuditEngine::scan(&[0u8; 8]).unwrap();
    assert_eq!(r.risk_score, 0);
    assert!(r.is_safe);
    assert_eq!(r.primary_risk, "None");
    assert!(r.flags.is_empty());
}

#[test]
fn external_call_scores_thirty() {
    let b = program(&[slot(CALL, 0, 0, 7), slot(EXIT, 0, 0, 0)]);
    let r = AuditEngine::scan(&b).unwrap();
    assert_eq!(r.risk_score, 30);
    assert!(r.is_safe);
    assert_eq!(r.primary_risk, "external-call");
    assert_eq!(r.flags, vec!["external-call".to_string()]);
}

#[test]
fn back_edge_and_unsafe_write() {
    // store through r1, then branch back to the store, then exit
    let b = program(&[slot(STXDW, 0x21, 0, 0), slot(JEQ_IMM, 0x01, -2, 0), slot(EXIT, 0, 0, 0)]);
    let r = AuditEngine::scan(&b).unwrap();
    assert_eq!(r.risk_score, 65);
    assert!(!r.is_safe);
    assert_eq!(r.primary_risk, "unsafe-memory-write");
    assert_eq!(r.flags, vec!["unbounded-loop".to_string(), "unsafe-memory-write".to_string()]);
}

#[test]
fn length_ten_is_truncated_at_eight() {
    assert_eq!(AuditEngine::scan(&[0u8; 10]).unwrap_err(), LenzError::ParseError(8));
}

#[test]
fn every_partial_tail_is_reported_where_it_starts() {
    for extra in 1..8usize {
        let b = vec![0u8; 16 + extra];
        assert_eq!(AuditEngine::scan(&b).unwrap_err(), LenzError::ParseError(16));
        assert_eq!(Disassembler::decode(&b).unwrap_err(), DecodeError::TruncatedInstruction(16));
    }
}

#[test]
fn illegal_opcode_is_refused() {
    let b = program(&[slot(MOV64_IMM, 1, 0, 0), slot(0xff, 0, 0, 0)]);
    assert_eq!(Disassembler::decode(&b).unwrap_err(), DecodeError::IllegalOpcode(8, 0xff));
    assert_eq!(AuditEngine::scan(&b).unwrap_err(), LenzError::ParseError(8));
}

#[test]
fn wide_instruction_in_last_slot_is_refused() {
    let b = program(&[slot(EXIT, 0, 0, 0), slot(0x18, 1, 0, 5)]);
    assert_eq!(Disassembler::decode(&b).unwrap_err(), DecodeError::TruncatedWideInstruction(8));
    assert_eq!(AuditEngine::scan(&b).unwrap_err(), LenzError::ParseError(8));
}

#[test]
fn wide_instruction_decodes_fields() {
    let b = program(&[slot(0x18, 0x01, 0, 0x1234_5678), slot(0, 0, 0, 1), slot(EXIT, 0, 0, 0)]);
    let ins = Disassembler::decode(&b).unwrap();
    assert_eq!(ins.len(), 2);
    assert!(ins[0].wide);
    assert_eq!(ins[0].offset, 0);
    assert_eq!(ins[0].dst, 1);
    assert_eq!(ins[0].imm, 0x1234_5678);
    assert_eq!(ins[0].imm_hi, 1);
    assert_eq!(ins[1].offset, 16);
    let widths: usize = ins.iter().map(|i| if i.wide { 16 } else { 8 }).sum();
    assert_eq!(widths, b.len());
}

#[test]
fn signed_fields_decode() {
    let b = program(&[slot(JEQ_IMM, 0x31, -1, -2), slot(EXIT, 0, 0, 0)]);
    let ins = Disassembler::decode(&b).unwrap();
    assert_eq!(ins[0].dst, 1);
    assert_eq!(ins[0].src, 3);
    assert_eq!(ins[0].off, -1);
    assert_eq!(ins[0].imm, -2);
}

#[test]
fn parse_names_classes() {
    let b = program(&[slot(0x18, 0, 0, 1), slot(0, 0, 0, 0), slot(0x07, 1, 0, 1), slot(EXIT, 0, 0, 0)]);
    let names = Disassembler::parse(&b).unwrap();
    assert_eq!(names, vec!["LD_DW_IMM".to_string(), "ALU".to_string(), "EXIT".to_string()]);
    assert_eq!(Disassembler::parse(&[0u8; 3]).unwrap_err(), LenzError::ParseError(0));
}

#[test]
fn branch_past_the_end_is_refused() {
    let b = program(&[slot(JA, 0, 5, 0), slot(EXIT, 0, 0, 0)]);
    assert_eq!(AuditEngine::scan(&b).unwrap_err(), LenzError::ParseError(0));
    let ins = Disassembler::decode(&b).unwrap();
    assert_eq!(ControlFlowGraph::build(&ins).err().unwrap(), CfgError::InvalidBranchTarget(0, 48));
}

#[test]
fn branch_into_wide_instruction_is_refused() {
    let b = program(&[slot(JEQ_IMM, 1, 1, 0), slot(0x18, 0, 0, 1), slot(0, 0, 0, 0), slot(EXIT, 0, 0, 0)]);
    let ins = Disassembler::decode(&b).unwrap();
    assert_eq!(ControlFlowGraph::build(&ins).err().unwrap(), CfgError::InvalidBranchTarget(0, 16));
    assert_eq!(AuditEngine::scan(&b).unwrap_err(), LenzError::ParseError(0));
}

#[test]
fn negative_branch_target_is_refused() {
    let b = program(&[slot(EXIT, 0, 0, 0), slot(JA, 0, -4, 0)]);
    let ins = Disassembler::decode(&b).unwrap();
    assert_eq!(ControlFlowGraph::build(&ins).err().unwrap(), CfgError::InvalidBranchTarget(8, -16));
    assert_eq!(AuditEngine::scan(&b).unwrap_err(), LenzError::ParseError(8));
}

#[test]
fn conditional_branch_last_is_unterminated() {
    let b = program(&[slot(EXIT, 0, 0, 0), slot(JEQ_IMM, 1, -2, 0)]);
    let ins = Disassembler::decode(&b).unwrap();
    assert_eq!(ControlFlowGraph::build(&ins).err().unwrap(), CfgError::UnterminatedProgram(8));
    assert_eq!(AuditEngine::scan(&b).unwrap_err(), LenzError::ParseError(8));
}

#[test]
fn call_last_is_unterminated() {
    let b = program(&[slot(CALL, 0, 0, 1)]);
    assert_eq!(AuditEngine::scan(&b).unwrap_err(), LenzError::ParseError(0));
}

#[test]
fn leaders_mark_block_starts() {
    let b = program(&[
        slot(MOV64_IMM, 1, 0, 0),
        slot(JEQ_IMM, 1, 1, 0),
        slot(MOV64_IMM, 2, 0, 0),
        slot(EXIT, 0, 0, 0),
    ]);
    let ins = Disassembler::decode(&b).unwrap();
    let g = ControlFlowGraph::build(&ins).unwrap();
    assert_eq!(g.targets, vec![None, Some(3), None, None]);
    assert_eq!(g.leaders, vec![true, false, true, true]);
    assert_eq!(
        g.blocks(),
        vec![
            BasicBlock { start: 0, end: 2 },
            BasicBlock { start: 2, end: 3 },
            BasicBlock { start: 3, end: 4 }
        ]
    );
}

#[test]
fn unreachable_code_is_flagged() {
    let b = program(&[slot(EXIT, 0, 0, 0), slot(MOV64_IMM, 1, 0, 0), slot(EXIT, 0, 0, 0)]);
    let r = AuditEngine::scan(&b).unwrap();
    assert_eq!(r.risk_score, 5);
    assert!(r.is_safe);
    assert_eq!(r.primary_risk, "unreachable-code");
    assert_eq!(r.flags, vec!["unreachable-code".to_string()]);
}

#[test]
fn jump_over_code_leaves_it_unreachable() {
    let b = program(&[slot(JA, 0, 1, 0), slot(MOV64_IMM, 1, 0, 0), slot(EXIT, 0, 0, 0)]);
    let r = AuditEngine::scan(&b).unwrap();
    assert_eq!(r.flags, vec!["unreachable-code".to_string()]);
    let ins = Disassembler::decode(&b).unwrap();
    let g = ControlFlowGraph::build(&ins).unwrap();
    assert_eq!(lenz_core::analyzer::reachability(&ins, &g), vec![true, false, true]);
}

#[test]
fn stack_store_is_safe() {
    let b = program(&[slot(STXDW, 0x1a, -8, 0), slot(STW_IMM, 0x0a, -4096, 3), slot(EXIT, 0, 0, 0)]);
    let r = AuditEngine::scan(&b).unwrap();
    assert_eq!(r.risk_score, 0);
    assert_eq!(r.primary_risk, "None");
}

#[test]
fn store_crossing_frame_pointer_is_unsafe() {
    let b = program(&[slot(STXDW, 0x1a, -4, 0), slot(EXIT, 0, 0, 0)]);
    let r = AuditEngine::scan(&b).unwrap();
    assert_eq!(r.risk_score, 40);
    assert!(r.is_safe);
    assert_eq!(r.flags, vec!["unsafe-memory-write".to_string()]);
    let below = program(&[slot(STW_IMM, 0x0a, -4100, 0), slot(EXIT, 0, 0, 0)]);
    assert_eq!(AuditEngine::scan(&below).unwrap().risk_score, 40);
}

#[test]
fn every_rule_together_reaches_the_cap() {
    let b = program(&[
        slot(STXDW, 0x21, 0, 0),
        slot(CALL, 0, 0, 9),
        slot(JEQ_IMM, 1, -3, 0),
        slot(EXIT, 0, 0, 0),
        slot(MOV64_IMM, 1, 0, 0),
        slot(EXIT, 0, 0, 0),
    ]);
    let r = AuditEngine::scan(&b).unwrap();
    assert_eq!(r.risk_score, 100);
    assert!(!r.is_safe);
    assert_eq!(r.primary_risk, "unsafe-memory-write");
    assert_eq!(
        r.flags,
        vec![
            "external-call".to_string(),
            "unbounded-loop".to_string(),
            "unreachable-code".to_string(),
            "unsafe-memory-write".to_string()
        ]
    );
}

#[test]
fn scanning_twice_gives_the_same_report() {
    let b = program(&[slot(CALL, 0, 0, 1), slot(JA, 0, -2, 0), slot(EXIT, 0, 0, 0)]);
    let r1 = AuditEngine::scan(&b).unwrap();
    let r2 = AuditEngine::scan(&b).unwrap();
    assert_eq!(r1.risk_score, r2.risk_score);
    assert_eq!(r1.is_safe, r2.is_safe);
    assert_eq!(r1.primary_risk, r2.primary_risk);
    assert_eq!(r1.flags, r2.flags);
    assert_eq!(r1.risk_score, 60);
}

#[test]
fn score_is_saturated() {
    let fs = vec![(Rule::UnsafeMemoryWrite, 0), (Rule::UnsafeMemoryWrite, 8), (Rule::ExternalCall, 16)];
    let r = report_from_findings(&fs);
    assert_eq!(r.risk_score, 100);
    assert!(!r.is_safe);
    assert_eq!(r.flags.len(), 3);
}

#[test]
fn threshold_is_strict() {
    let r = report_from_findings(&vec![(Rule::UnboundedLoop, 0), (Rule::UnboundedLoop, 8)]);
    assert_eq!(r.risk_score, 50);
    assert!(!r.is_safe);
    let r = report_from_findings(&vec![(Rule::UnboundedLoop, 0), (Rule::UnreachableCode, 8)]);
    assert_eq!(r.risk_score, 30);
    assert!(r.is_safe);
}

#[test]
fn primary_tie_goes_to_smaller_offset() {
    let r = report_from_findings(&vec![(Rule::ExternalCall, 24), (Rule::ExternalCall, 8)]);
    assert_eq!(r.primary_risk, "external-call");
    let r = report_from_findings(&vec![(Rule::UnreachableCode, 0), (Rule::UnboundedLoop, 40)]);
    assert_eq!(r.primary_risk, "unbounded-loop");
}

#[test]
fn analyze_matches_scan() {
    let b = program(&[slot(CALL, 0, 0, 1), slot(EXIT, 0, 0, 0)]);
    let ins = Disassembler::decode(&b).unwrap();
    let g = ControlFlowGraph::build(&ins).unwrap();
    let r = analyze(&ins, &g);
    assert_eq!(r.risk_score, 30);
    assert_eq!(r.primary_risk, "external-call");
}

#[test]
fn default_report_is_clean() {
    let r = RiskReport::default();
    assert_eq!(r.risk_score, 0);
    assert!(r.is_safe);
    assert_eq!(r.primary_risk, "None");
    assert!(r.flags.is_empty());
}

#[test]
fn pad_buffer_grows_with_zeros_and_cuts() {
    assert_eq!(pad_buffer(&[1, 2, 3], 5), vec![1, 2, 3, 0, 0]);
    assert_eq!(pad_buffer(&[1, 2, 3], 2), vec![1, 2]);
    assert_eq!(pad_buffer(&[], 0), Vec::<u8>::new());
}

#[test]
fn rule_weights_and_names() {
    assert_eq!(Rule::ExternalCall.weight(), 30);
    assert_eq!(Rule::UnboundedLoop.weight(), 25);
    assert_eq!(Rule::UnreachableCode.weight(), 5);
    assert_eq!(Rule::UnsafeMemoryWrite.weight(), 40);
    assert_eq!(Rule::UnsafeMemoryWrite.name(), "unsafe-memory-write");
}
