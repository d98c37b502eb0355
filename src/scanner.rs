use vstd::prelude::*;
use crate::analyzer::analyze;
use crate::cfg::{spec_targets, ControlFlowGraph};
use crate::disassembler::{lemma_decoded_classes, spec_decode, Disassembler};
use crate::error::LenzError;
use crate::risk::{spec_findings, spec_report, ReportView, RiskReport};

verus! {

/// What scanning a buffer gives: an empty buffer is refused, a decoding or
/// control-flow fault becomes `ParseError` at its offset, and otherwise the
/// analysis of the decoded program is the report.
pub open spec fn spec_scan(b: Seq<u8>) -> Result<ReportView, LenzError> {
    if b.len() == 0 {
        Err(LenzError::EmptyBytecode)
    } else {
        match spec_decode(b) {
            Err(e) => Err(LenzError::ParseError(e.spec_offset())),
            Ok(s) => match spec_targets(s) {
                Err(e) => Err(LenzError::ParseError(e.spec_source())),
                Ok(tg) => Ok(spec_report(spec_findings(s, tg))),
            },
        }
    }
}

pub open spec fn scan_view(r: Result<RiskReport, LenzError>) -> Result<ReportView, LenzError> {
    match r {
        Ok(rep) => Ok(rep@),
        Err(e) => Err(e),
    }
}

/// Runs decoding, graph building and analysis over one buffer.
pub struct AuditEngine;

impl AuditEngine {
    /// Scans `bytecode` and reports its risk.
    pub fn scan(bytecode: &[u8]) -> (r: Result<RiskReport, LenzError>)
        ensures
            scan_view(r) == spec_scan(bytecode@),
    {
        if bytecode.len() == 0 {
            return Err(LenzError::EmptyBytecode);
        }
        let instrs = match Disassembler::decode(bytecode) {
            Ok(v) => v,
            Err(e) => {
                return Err(LenzError::ParseError(e.offset()));
            },
        };
        proof { lemma_decoded_classes(bytecode@); }
        let cfg = match ControlFlowGraph::build(&instrs) {
            Ok(g) => g,
            Err(e) => {
                return Err(LenzError::ParseError(e.source()));
            },
        };
        Ok(analyze(&instrs, &cfg))
    }
}

} // verus!
