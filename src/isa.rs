use vstd::prelude::*;

verus! {

/// What an opcode does, as far as the analysis cares.
#[derive(Debug, Clone, Copy, PartialEq, Eq, Structural)]
pub enum OpClass {
    /// Opcode byte zero: does nothing.
    Nop,
    /// Loads a 64-bit immediate; spans two slots.
    LoadImm64,
    /// Reads memory into a register.
    Load,
    /// Writes an immediate or a register to memory.
    Store,
    /// Arithmetic or logic on registers.
    Alu,
    /// Unconditional jump.
    Jump,
    /// Conditional branch: falls through or jumps.
    CondJump,
    /// Call out of the program.
    Call,
    /// Ends the program.
    Exit,
}

/// The opcode that spans two slots.
pub const OP_LDDW: u8 = 0x18;

/// The class of an opcode byte, or `None` for a byte outside the instruction set.
/// The low three bits give the class family, bit 3 the operand source,
/// the high four bits the operation.
pub open spec fn spec_op_class(op: u8) -> Option<OpClass> {
    let family = op % 8;
    let code = op / 16;
    if op == 0 {
        Some(OpClass::Nop)
    } else if op == OP_LDDW {
        Some(OpClass::LoadImm64)
    } else if family == 1 && 0x60 <= op < 0x80 {
        Some(OpClass::Load)
    } else if (family == 2 || family == 3) && 0x60 <= op < 0x80 {
        Some(OpClass::Store)
    } else if (family == 4 || family == 7) && code <= 12 {
        Some(OpClass::Alu)
    } else if family == 4 && code == 13 {
        Some(OpClass::Alu)
    } else if op == 0x05 {
        Some(OpClass::Jump)
    } else if family == 5 && ((1 <= code <= 7) || (10 <= code <= 13)) {
        Some(OpClass::CondJump)
    } else if op == 0x85 || op == 0x8d {
        Some(OpClass::Call)
    } else if op == 0x95 {
        Some(OpClass::Exit)
    } else {
        None
    }
}

pub fn classify(op: u8) -> (r: Option<OpClass>)
    ensures
        r == spec_op_class(op),
{
    let family = op % 8;
    let code = op / 16;
    if op == 0 {
        Some(OpClass::Nop)
    } else if op == OP_LDDW {
        Some(OpClass::LoadImm64)
    } else if family == 1 && 0x60 <= op && op < 0x80 {
        Some(OpClass::Load)
    } else if (family == 2 || family == 3) && 0x60 <= op && op < 0x80 {
        Some(OpClass::Store)
    } else if (family == 4 || family == 7) && code <= 12 {
        Some(OpClass::Alu)
    } else if family == 4 && code == 13 {
        Some(OpClass::Alu)
    } else if op == 0x05 {
        Some(OpClass::Jump)
    } else if family == 5 && ((1 <= code && code <= 7) || (10 <= code && code <= 13)) {
        Some(OpClass::CondJump)
    } else if op == 0x85 || op == 0x8d {
        Some(OpClass::Call)
    } else if op == 0x95 {
        Some(OpClass::Exit)
    } else {
        None
    }
}

/// One decoded instruction.
#[derive(Debug, Clone, Copy, PartialEq, Eq)]
pub struct Instruction {
    /// Byte offset of the first slot in the buffer.
    pub offset: usize,
    pub opcode: u8,
    /// Destination register (low nibble of the register byte).
    pub dst: u8,
    /// Source register (high nibble of the register byte).
    pub src: u8,
    /// Signed 16-bit offset field.
    pub off: i16,
    /// Signed 32-bit immediate field.
    pub imm: i32,
    /// Immediate field of the second slot of a wide instruction, zero otherwise.
    pub imm_hi: i32,
    /// Whether the instruction spans two slots.
    pub wide: bool,
}

impl Instruction {
    pub open spec fn class(self) -> OpClass {
        spec_op_class(self.opcode).unwrap()
    }

    /// Number of bytes the instruction covers.
    pub open spec fn width(self) -> int {
        if self.wide { 16 } else { 8 }
    }

    pub open spec fn is_branch(self) -> bool {
        self.class() == OpClass::Jump || self.class() == OpClass::CondJump
    }

    /// Byte offset that a branch points at: the slot after it, moved by `off` slots.
    pub open spec fn spec_target(self) -> int {
        self.offset + 8 + 8 * self.off
    }

    pub fn target(&self) -> (r: i128)
        ensures
            r == self.spec_target(),
    {
        self.offset as i128 + 8 + 8 * (self.off as i128)
    }
}

pub open spec fn le_u16(b: Seq<u8>, p: int) -> int {
    b[p] + 256 * b[p + 1]
}

pub open spec fn le_u32(b: Seq<u8>, p: int) -> int {
    le_u16(b, p) + 65536 * le_u16(b, p + 2)
}

pub open spec fn as_signed16(u: int) -> int {
    if u >= 0x8000 { u - 0x1_0000 } else { u }
}

pub open spec fn as_signed32(u: int) -> int {
    if u >= 0x8000_0000 { u - 0x1_0000_0000 } else { u }
}

/// The instruction whose first slot starts at `pos`: opcode byte, register byte
/// (destination in the low nibble), little-endian 16-bit offset, little-endian
/// 32-bit immediate; a wide one also takes the immediate of the next slot.
pub open spec fn insn_at(b: Seq<u8>, pos: int, wide: bool) -> Instruction {
    Instruction {
        offset: pos as usize,
        opcode: b[pos],
        dst: (b[pos + 1] % 16) as u8,
        src: (b[pos + 1] / 16) as u8,
        off: as_signed16(le_u16(b, pos + 2)) as i16,
        imm: as_signed32(le_u32(b, pos + 4)) as i32,
        imm_hi: if wide { as_signed32(le_u32(b, pos + 12)) as i32 } else { 0 },
        wide,
    }
}

fn read_i16(b: &[u8], p: usize) -> (r: i16)
    requires
        p + 2 <= b@.len(),
    ensures
        r as int == as_signed16(le_u16(b@, p as int)),
{
    let u: u32 = (b[p] as u32) + (b[p + 1] as u32) * 256;
    if u >= 0x8000 {
        (u as i32 - 0x1_0000) as i16
    } else {
        u as i16
    }
}

fn read_i32(b: &[u8], p: usize) -> (r: i32)
    requires
        p + 4 <= b@.len(),
    ensures
        r as int == as_signed32(le_u32(b@, p as int)),
{
    let lo: u64 = (b[p] as u64) + (b[p + 1] as u64) * 256;
    let hi: u64 = (b[p + 2] as u64) + (b[p + 3] as u64) * 256;
    let u: u64 = lo + hi * 65536;
    if u >= 0x8000_0000 {
        (u as i64 - 0x1_0000_0000) as i32
    } else {
        u as i32
    }
}

/// Reads the instruction whose first slot starts at `pos`.
pub fn read_insn(b: &[u8], pos: usize, wide: bool) -> (r: Instruction)
    requires
        pos + (if wide { 16int } else { 8int }) <= b@.len(),
    ensures
        r == insn_at(b@, pos as int, wide),
{
    let n = b.len();
    assert(pos + 8 <= n);
    let reg = b[pos + 1];
    let imm_hi: i32 = if wide { read_i32(b, pos + 12) } else { 0 };
    Instruction {
        offset: pos,
        opcode: b[pos],
        dst: reg % 16,
        src: reg / 16,
        off: read_i16(b, pos + 2),
        imm: read_i32(b, pos + 4),
        imm_hi,
        wide,
    }
}

} // verus!
