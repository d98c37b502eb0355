pub mod analyzer;
pub mod cfg;
pub mod constants;
pub mod disassembler;
pub mod error;
pub mod isa;
pub mod laws;
pub mod risk;
pub mod scanner;
pub mod utils;

pub use constants::{INSN_SIZE, MAX_RISK_SCORE, SAFE_THRESHOLD};
pub use disassembler::Disassembler;
pub use error::LenzError;
pub use risk::RiskReport;
pub use scanner::AuditEngine;
pub use utils::pad_buffer;
