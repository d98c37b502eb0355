use vstd::prelude::*;
use crate::constants::INSN_SIZE;
use crate::error::{DecodeError, LenzError};
use crate::isa::{classify, insn_at, read_insn, spec_op_class, Instruction, OpClass};

verus! {

/// Puts `i` in front of a successful decoding; passes an error on.
pub open spec fn cons_ok(i: Instruction, r: Result<Seq<Instruction>, DecodeError>) -> Result<Seq<Instruction>, DecodeError> {
    match r {
        Ok(s) => Ok(seq![i] + s),
        Err(e) => Err(e),
    }
}

/// Puts `a` in front of a successful decoding; passes an error on.
pub open spec fn prefix_ok(a: Seq<Instruction>, r: Result<Seq<Instruction>, DecodeError>) -> Result<Seq<Instruction>, DecodeError> {
    match r {
        Ok(s) => Ok(a + s),
        Err(e) => Err(e),
    }
}

/// Decodes the whole slots of `b` from byte `pos` on.
pub open spec fn decode_from(b: Seq<u8>, pos: nat) -> Result<Seq<Instruction>, DecodeError>
    decreases b.len() - pos,
{
    if pos + 8 > b.len() {
        Ok(seq![])
    } else {
        match spec_op_class(b[pos as int]) {
            None => Err(DecodeError::IllegalOpcode(pos as usize, b[pos as int])),
            Some(OpClass::LoadImm64) => {
                if pos + 16 > b.len() {
                    Err(DecodeError::TruncatedWideInstruction(pos as usize))
                } else {
                    cons_ok(insn_at(b, pos as int, true), decode_from(b, pos + 16))
                }
            },
            Some(_) => cons_ok(insn_at(b, pos as int, false), decode_from(b, pos + 8)),
        }
    }
}

/// What decoding a buffer gives: a partial trailing slot is reported first,
/// at the offset where it starts; otherwise slots are decoded in order and the
/// first fault met stops decoding.
pub open spec fn spec_decode(b: Seq<u8>) -> Result<Seq<Instruction>, DecodeError> {
    if b.len() % 8 != 0 {
        Err(DecodeError::TruncatedInstruction((b.len() - b.len() % 8) as usize))
    } else {
        decode_from(b, 0)
    }
}

pub open spec fn decode_view(r: Result<Vec<Instruction>, DecodeError>) -> Result<Seq<Instruction>, DecodeError> {
    match r {
        Ok(v) => Ok(v@),
        Err(e) => Err(e),
    }
}

/// Total number of bytes that a run of instructions covers.
pub open spec fn total_width(s: Seq<Instruction>) -> int
    decreases s.len(),
{
    if s.len() == 0 {
        0
    } else {
        s[0].width() + total_width(s.subrange(1, s.len() as int))
    }
}

/// The short name of an instruction class.
pub open spec fn class_name(c: OpClass) -> Seq<char> {
    match c {
        OpClass::Nop => "NOP"@,
        OpClass::LoadImm64 => "LD_DW_IMM"@,
        OpClass::Load => "LDX"@,
        OpClass::Store => "ST"@,
        OpClass::Alu => "ALU"@,
        OpClass::Jump => "JA"@,
        OpClass::CondJump => "JCOND"@,
        OpClass::Call => "CALL"@,
        OpClass::Exit => "EXIT"@,
    }
}

pub fn class_name_string(c: OpClass) -> (r: String)
    ensures
        r@ == class_name(c),
{
    match c {
        OpClass::Nop => "NOP".to_owned(),
        OpClass::LoadImm64 => "LD_DW_IMM".to_owned(),
        OpClass::Load => "LDX".to_owned(),
        OpClass::Store => "ST".to_owned(),
        OpClass::Alu => "ALU".to_owned(),
        OpClass::Jump => "JA".to_owned(),
        OpClass::CondJump => "JCOND".to_owned(),
        OpClass::Call => "CALL".to_owned(),
        OpClass::Exit => "EXIT".to_owned(),
    }
}

/// Turns raw bytecode into instructions.
pub struct Disassembler;

impl Disassembler {
    /// Decodes `data` into instructions in buffer order.
    pub fn decode(data: &[u8]) -> (r: Result<Vec<Instruction>, DecodeError>)
        ensures
            decode_view(r) == spec_decode(data@),
    {
        let n = data.len();
        if n % INSN_SIZE != 0 {
            return Err(DecodeError::TruncatedInstruction(n - n % INSN_SIZE));
        }
        let mut out: Vec<Instruction> = Vec::new();
        let mut pos: usize = 0;
        while pos < n
            invariant
                n == data@.len(),
                n % 8 == 0,
                pos % 8 == 0,
                pos <= n,
                spec_decode(data@) == prefix_ok(out@, decode_from(data@, pos as nat)),
            decreases n - pos,
        {
            let op = data[pos];
            match classify(op) {
                None => {
                    return Err(DecodeError::IllegalOpcode(pos, op));
                },
                Some(OpClass::LoadImm64) => {
                    if n - pos < 2 * INSN_SIZE {
                        return Err(DecodeError::TruncatedWideInstruction(pos));
                    }
                    let ins = read_insn(data, pos, true);
                    proof {
                        let rest = decode_from(data@, (pos + 16) as nat);
                        if let Ok(s) = rest {
                            assert(out@ + (seq![ins] + s) =~= out@.push(ins) + s);
                        }
                    }
                    out.push(ins);
                    pos = pos + 2 * INSN_SIZE;
                },
                Some(_) => {
                    let ins = read_insn(data, pos, false);
                    proof {
                        let rest = decode_from(data@, (pos + 8) as nat);
                        if let Ok(s) = rest {
                            assert(out@ + (seq![ins] + s) =~= out@.push(ins) + s);
                        }
                    }
                    out.push(ins);
                    pos = pos + INSN_SIZE;
                },
            }
        }
        assert(out@ + seq![] =~= out@);
        Ok(out)
    }

    /// Decodes `data` and names the class of each instruction in buffer order;
    /// a decoding fault becomes `ParseError` at its offset.
    pub fn parse(data: &[u8]) -> (r: Result<Vec<String>, LenzError>)
        ensures
            match spec_decode(data@) {
                Ok(s) => r is Ok && r->Ok_0@.len() == s.len() && forall|k: int|
                    0 <= k < s.len() ==> #[trigger] r->Ok_0@[k]@ == class_name(s[k].class()),
                Err(e) => r == Err::<Vec<String>, LenzError>(LenzError::ParseError(e.spec_offset())),
            },
    {
        let _n = data.len();
        match Disassembler::decode(data) {
            Err(e) => Err(LenzError::ParseError(e.offset())),
            Ok(ins) => {
                let mut names: Vec<String> = Vec::new();
                let mut k: usize = 0;
                while k < ins.len()
                    invariant
                        data@.len() <= usize::MAX,
                        k <= ins@.len(),
                        spec_decode(data@) == Ok::<Seq<Instruction>, DecodeError>(ins@),
                        names@.len() == k,
                        forall|j: int| 0 <= j < k ==> #[trigger] names@[j]@ == class_name(ins@[j].class()),
                    decreases ins@.len() - k,
                {
                    proof { lemma_decoded_classes(data@); }
                    let c = classify(ins[k].opcode).unwrap();
                    names.push(class_name_string(c));
                    k = k + 1;
                }
                Ok(names)
            },
        }
    }
}

/// Every decoded instruction carries an opcode of the instruction set.
pub proof fn lemma_decoded_classes(b: Seq<u8>)
    requires
        b.len() <= usize::MAX,
    ensures
        spec_decode(b) is Ok ==> forall|k: int| 0 <= k < spec_decode(b)->Ok_0.len()
            ==> (#[trigger] spec_decode(b)->Ok_0[k]).opcode == b[spec_decode(b)->Ok_0[k].offset as int]
                && spec_op_class(spec_decode(b)->Ok_0[k].opcode) is Some,
{
    if b.len() % 8 == 0 {
        lemma_decode_from_classes(b, 0);
    }
}

proof fn lemma_decode_from_classes(b: Seq<u8>, pos: nat)
    requires
        b.len() % 8 == 0,
        b.len() <= usize::MAX,
        pos % 8 == 0,
    ensures
        decode_from(b, pos) is Ok ==> forall|k: int| 0 <= k < decode_from(b, pos)->Ok_0.len()
            ==> (#[trigger] decode_from(b, pos)->Ok_0[k]).opcode == b[decode_from(b, pos)->Ok_0[k].offset as int]
                && spec_op_class(decode_from(b, pos)->Ok_0[k].opcode) is Some
                && pos <= decode_from(b, pos)->Ok_0[k].offset < b.len(),
    decreases b.len() - pos,
{
    if pos + 8 <= b.len() {
        let w: nat = if spec_op_class(b[pos as int]) == Some(OpClass::LoadImm64) { 16 } else { 8 };
        if spec_op_class(b[pos as int]) is Some && pos + w <= b.len() {
            lemma_decode_from_classes(b, pos + w);
            let i = insn_at(b, pos as int, w == 16);
            let rest = decode_from(b, pos + w);
            assert(decode_from(b, pos) == cons_ok(i, rest));
            if let Ok(t) = rest {
                assert forall|k: int| 0 <= k < t.len() + 1 implies
                    (#[trigger] (seq![i] + t)[k]).opcode == b[(seq![i] + t)[k].offset as int]
                    && spec_op_class((seq![i] + t)[k].opcode) is Some
                    && pos <= (seq![i] + t)[k].offset < b.len() by {
                    if k > 0 {
                        assert((seq![i] + t)[k] == t[k - 1]);
                        assert(t[k - 1] == decode_from(b, pos + w)->Ok_0[k - 1]);
                    }
                }
            }
        }
    }
}

/// Decoded instructions lie back to back from offset 0 in buffer order: each
/// starts where the one before it ends, so none overlaps another.
pub proof fn lemma_decode_layout(b: Seq<u8>)
    requires
        b.len() <= usize::MAX,
    ensures
        spec_decode(b) is Ok ==> {
            let s = spec_decode(b)->Ok_0;
            &&& s.len() > 0 ==> s[0].offset == 0
            &&& forall|k: int| 0 <= k < s.len() - 1 ==> #[trigger] s[k + 1].offset == s[k].offset + s[k].width()
        },
{
    if b.len() % 8 == 0 {
        lemma_decode_from_layout(b, 0);
    }
}

proof fn lemma_decode_from_layout(b: Seq<u8>, pos: nat)
    requires
        b.len() % 8 == 0,
        b.len() <= usize::MAX,
        pos % 8 == 0,
    ensures
        decode_from(b, pos) is Ok ==> {
            let s = decode_from(b, pos)->Ok_0;
            &&& s.len() > 0 ==> s[0].offset == pos
            &&& forall|k: int| 0 <= k < s.len() - 1 ==> #[trigger] s[k + 1].offset == s[k].offset + s[k].width()
        },
    decreases b.len() - pos,
{
    if pos + 8 <= b.len() {
        let w: nat = if spec_op_class(b[pos as int]) == Some(OpClass::LoadImm64) { 16 } else { 8 };
        if spec_op_class(b[pos as int]) is Some && pos + w <= b.len() {
            lemma_decode_from_layout(b, pos + w);
            let i = insn_at(b, pos as int, w == 16);
            if let Ok(t) = decode_from(b, pos + w) {
                let s = seq![i] + t;
                assert forall|k: int| 0 <= k < s.len() - 1 implies #[trigger] s[k + 1].offset == s[k].offset + s[k].width() by {
                    assert(s[k + 1] == t[k]);
                    if k > 0 {
                        assert(s[k] == t[k - 1]);
                        let k1 = k - 1;
                        assert(t[k1 + 1].offset == t[k1].offset + t[k1].width());
                    } else {
                        assert(s[0] == i);
                        assert(i.width() == w);
                    }
                }
            }
        }
    }
}

} // verus!
