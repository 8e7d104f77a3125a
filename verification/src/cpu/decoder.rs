//! Decoding of 32-bit ARM instruction words.

use vstd::prelude::*;

verus! {

/// A decoded instruction with the condition under which it executes.
#[derive(Debug, Copy, Clone, PartialEq, Eq)]
pub struct InstructionContainer {
    pub cond: u8,
    pub instruction: Instruction,
}

#[derive(Debug, Copy, Clone, PartialEq, Eq)]
pub enum Instruction {
    MovImm { rd: u8, rhs: u32 },
    /// target_offset is the signed byte offset, already shifted left by two
    Branch { link: bool, target_offset: i32 },
    Svc,
    LdrLiteral { rd: u8, addr: u32 },
    Unknown(u32),
}

/// Bit `n` of `word`.
pub open spec fn bit(word: u32, n: u32) -> bool {
    (word >> n) & 1 == 1
}

/// The condition field, bits 31:28.
pub open spec fn cond_of(word: u32) -> u32 {
    (word >> 28) & 0xF
}

/// The class field, bits 27:25.
pub open spec fn top_of(word: u32) -> u32 {
    (word >> 25) & 0x7
}

/// The opcode of a data-processing instruction, bits 24:21.
pub open spec fn opcode_of(word: u32) -> u32 {
    (word >> 21) & 0xF
}

/// The base register field, bits 19:16.
pub open spec fn rn_of(word: u32) -> u32 {
    (word >> 16) & 0xF
}

/// The destination register field, bits 15:12.
pub open spec fn rd_of(word: u32) -> u32 {
    (word >> 12) & 0xF
}

/// The 12-bit immediate, bits 11:0.
pub open spec fn imm12_of(word: u32) -> u32 {
    word & 0xFFF
}

/// The 24-bit immediate, bits 23:0.
pub open spec fn imm24_of(word: u32) -> u32 {
    word & 0x00FF_FFFF
}

/// `value` rotated right by `count` bit positions within 32 bits.
pub open spec fn rotated_right(value: u32, count: u32) -> u32 {
    if count % 32 == 0 {
        value
    } else {
        (value >> (count % 32)) | (value << ((32 - count % 32) as u32))
    }
}

/// The value of a rotated 12-bit immediate: its low eight bits, rotated
/// right by twice its high four bits.
pub open spec fn rotated_imm(imm12: u32) -> u32 {
    rotated_right(imm12 & 0xFF, (((imm12 >> 8) & 0xF) * 2) as u32)
}

/// The byte offset of a branch: the 24-bit immediate read as a signed
/// number, times four.
pub open spec fn branch_offset(imm24: u32) -> int {
    if imm24 < 0x80_0000 {
        4 * imm24
    } else {
        4 * (imm24 - 0x100_0000)
    }
}

/// The address of a literal: the program counter as the instruction sees
/// it, eight bytes ahead of the instruction, plus the immediate, within
/// 32 bits.
pub open spec fn literal_addr(pc: u32, imm12: u32) -> u32 {
    ((pc + 8 + imm12) % 0x1_0000_0000) as u32
}

/// Load and store words: bits 27:26 are 01.
pub open spec fn is_load_store(word: u32) -> bool {
    (top_of(word) >> 1) & 0b11 == 0b01
}

/// A load of a word from the literal pool: `LDR Rd, [PC, #imm12]`, that is
/// L=1, Rn=15, P=1, U=1, W=0, B=0.
pub open spec fn is_ldr_literal(word: u32) -> bool {
    &&& is_load_store(word)
    &&& bit(word, 20)
    &&& rn_of(word) == 15
    &&& bit(word, 24)
    &&& bit(word, 23)
    &&& !bit(word, 21)
    &&& !bit(word, 22)
}

/// Branch words: bits 27:25 are 101.
pub open spec fn is_branch(word: u32) -> bool {
    top_of(word) == 0b101
}

/// Supervisor calls: bits 27:24 are 1111.
pub open spec fn is_svc(word: u32) -> bool {
    (word >> 24) & 0xF == 0b1111
}

/// Data-processing words: bits 27:25 are 000 or 001.
pub open spec fn is_data_processing(word: u32) -> bool {
    top_of(word) == 0b000 || top_of(word) == 0b001
}

/// A move of a rotated immediate into a register: a data-processing word
/// with the I bit set and the opcode of MOV.
pub open spec fn is_mov_imm(word: u32) -> bool {
    &&& is_data_processing(word)
    &&& bit(word, 25)
    &&& op_of_bits(opcode_of(word) as u8) == Op::Mov
}

/// The register that the instruction writes to, if it writes to one, is one
/// of the sixteen.
pub open spec fn names_registers(instruction: Instruction) -> bool {
    match instruction {
        Instruction::MovImm { rd, .. } => rd < 16,
        Instruction::LdrLiteral { rd, .. } => rd < 16,
        _ => true,
    }
}

/// What a word at address `caddr` decodes to. The first class that matches
/// decides; what no class takes is `Unknown`.
pub open spec fn decoded(word: u32, caddr: u32) -> Instruction {
    if is_load_store(word) {
        if is_ldr_literal(word) {
            Instruction::LdrLiteral {
                rd: rd_of(word) as u8,
                addr: literal_addr(caddr, imm12_of(word)),
            }
        } else {
            Instruction::Unknown(word)
        }
    } else if is_branch(word) {
        Instruction::Branch {
            link: bit(word, 24),
            target_offset: branch_offset(imm24_of(word)) as i32,
        }
    } else if is_svc(word) {
        Instruction::Svc
    } else if is_mov_imm(word) {
        Instruction::MovImm { rd: rd_of(word) as u8, rhs: rotated_imm(imm12_of(word)) }
    } else {
        Instruction::Unknown(word)
    }
}

/// The 4-bit primary opcode field (bits 24:21) of data-processing
/// instructions.
#[derive(Debug, Clone, Copy, PartialEq, Eq)]
pub enum Op {
    And,
    Eor,
    Sub,
    Rsb,
    Add,
    Adc,
    Sbc,
    Rsc,
    Tst,
    Teq,
    Cmp,
    Cmn,
    Orr,
    Mov,
    Bic,
    Mvn,
}

/// The opcode that the table holds at index `bits`.
pub open spec fn op_of_bits(bits: u8) -> Op {
    if bits == 0 {
        Op::And
    } else if bits == 1 {
        Op::Eor
    } else if bits == 2 {
        Op::Sub
    } else if bits == 3 {
        Op::Rsb
    } else if bits == 4 {
        Op::Add
    } else if bits == 5 {
        Op::Adc
    } else if bits == 6 {
        Op::Sbc
    } else if bits == 7 {
        Op::Rsc
    } else if bits == 8 {
        Op::Tst
    } else if bits == 9 {
        Op::Teq
    } else if bits == 10 {
        Op::Cmp
    } else if bits == 11 {
        Op::Cmn
    } else if bits == 12 {
        Op::Orr
    } else if bits == 13 {
        Op::Mov
    } else if bits == 14 {
        Op::Bic
    } else {
        Op::Mvn
    }
}

/// Looks an opcode up by its four bits.
pub fn op_from_bits(bits: u8) -> (op: Op)
    requires
        bits <= 0b1111,
    ensures
        op == op_of_bits(bits),
{
    match bits {
        0b0000 => Op::And,
        0b0001 => Op::Eor,
        0b0010 => Op::Sub,
        0b0011 => Op::Rsb,
        0b0100 => Op::Add,
        0b0101 => Op::Adc,
        0b0110 => Op::Sbc,
        0b0111 => Op::Rsc,
        0b1000 => Op::Tst,
        0b1001 => Op::Teq,
        0b1010 => Op::Cmp,
        0b1011 => Op::Cmn,
        0b1100 => Op::Orr,
        0b1101 => Op::Mov,
        0b1110 => Op::Bic,
        _ => Op::Mvn,
    }
}

/// The word of `MOV Rd, #imm12` under condition `cond`.
pub open spec fn mov_imm_word(cond: u32, rd: u32, imm12: u32) -> u32 {
    (cond << 28) | 0x03A0_0000 | (rd << 12) | imm12
}

/// The word of `B` or, with `link`, `BL` under condition `cond`.
pub open spec fn branch_word(cond: u32, link: bool, imm24: u32) -> u32 {
    (cond << 28) | (if link {
        0x0B00_0000u32
    } else {
        0x0A00_0000u32
    }) | imm24
}

/// The word of `SVC #imm24` under condition `cond`.
pub open spec fn svc_word(cond: u32, imm24: u32) -> u32 {
    (cond << 28) | 0x0F00_0000 | imm24
}

/// The word of `LDR Rd, [PC, #imm12]` under condition `cond`.
pub open spec fn ldr_literal_word(cond: u32, rd: u32, imm12: u32) -> u32 {
    (cond << 28) | 0x059F_0000 | (rd << 12) | imm12
}

/// No word belongs to two of the four classes that the decoder tells
/// apart.
pub proof fn lemma_classes_exclusive(word: u32)
    ensures
        !(is_load_store(word) && is_branch(word)),
        !(is_load_store(word) && is_svc(word)),
        !(is_load_store(word) && is_data_processing(word)),
        !(is_branch(word) && is_svc(word)),
        !(is_branch(word) && is_data_processing(word)),
        !(is_svc(word) && is_data_processing(word)),
{
    let top = (word >> 25) & 0x7;
    assert(((top >> 1) & 0b11 == 0b01) ==> top == 2 || top == 3) by (bit_vector)
        requires
            top == (word >> 25) & 0x7,
    ;
    assert(((word >> 24) & 0xF == 0b1111) ==> top == 7) by (bit_vector)
        requires
            top == (word >> 25) & 0x7,
    ;
}

/// Every word decodes to exactly one variant, the one of its class, and
/// `Unknown`, which holds the word itself, takes whatever is left.
pub proof fn lemma_decode_total(word: u32, caddr: u32)
    ensures
        decoded(word, caddr) is LdrLiteral <==> is_ldr_literal(word),
        decoded(word, caddr) is Branch <==> is_branch(word),
        decoded(word, caddr) is Svc <==> is_svc(word),
        decoded(word, caddr) is MovImm <==> is_mov_imm(word),
        decoded(word, caddr) is Unknown <==> !(is_ldr_literal(word) || is_branch(word) || is_svc(
            word,
        ) || is_mov_imm(word)),
        decoded(word, caddr) is Unknown ==> decoded(word, caddr) == Instruction::Unknown(word),
{
    lemma_classes_exclusive(word);
}

/// A MOV with an immediate decodes to its register and to the low eight
/// bits of the immediate rotated right by twice its high four bits.
pub proof fn lemma_mov_imm_decodes(cond: u32, rd: u32, imm12: u32, caddr: u32)
    requires
        cond < 16,
        rd < 16,
        imm12 < 0x1000,
    ensures
        cond_of(mov_imm_word(cond, rd, imm12)) == cond,
        decoded(mov_imm_word(cond, rd, imm12), caddr) == (Instruction::MovImm {
            rd: rd as u8,
            rhs: rotated_right(imm12 & 0xFF, (2 * (imm12 >> 8)) as u32),
        }),
{
    let word = mov_imm_word(cond, rd, imm12);
    assert({
        &&& (word >> 28) & 0xF == cond
        &&& (word >> 25) & 0x7 == 1
        &&& (((word >> 25) & 0x7) >> 1) & 0b11 == 0
        &&& (word >> 24) & 0xF == 3
        &&& (word >> 25) & 1 == 1
        &&& (word >> 21) & 0xF == 13
        &&& (word >> 12) & 0xF == rd
        &&& word & 0xFFF == imm12
        &&& (imm12 >> 8) & 0xF == imm12 >> 8
    }) by (bit_vector)
        requires
            word == (cond << 28) | 0x03A0_0000 | (rd << 12) | imm12,
            cond < 16,
            rd < 16,
            imm12 < 0x1000,
    ;
}

/// A branch decodes to its link bit and to four times its 24-bit immediate
/// read as a signed number.
pub proof fn lemma_branch_decodes(cond: u32, link: bool, imm24: u32, caddr: u32)
    requires
        cond < 16,
        imm24 < 0x100_0000,
    ensures
        cond_of(branch_word(cond, link, imm24)) == cond,
        decoded(branch_word(cond, link, imm24), caddr) == (Instruction::Branch {
            link,
            target_offset: (if imm24 < 0x80_0000 {
                4 * imm24
            } else {
                4 * imm24 - 0x400_0000
            }) as i32,
        }),
{
    let word = branch_word(cond, link, imm24);
    let opc: u32 = if link {
        0x0B00_0000u32
    } else {
        0x0A00_0000u32
    };
    assert({
        &&& (word >> 28) & 0xF == cond
        &&& (word >> 25) & 0x7 == 5
        &&& (((word >> 25) & 0x7) >> 1) & 0b11 == 2
        &&& ((word >> 24) & 1 == 1) == (opc == 0x0B00_0000u32)
        &&& word & 0x00FF_FFFF == imm24
    }) by (bit_vector)
        requires
            word == (cond << 28) | opc | imm24,
            opc == 0x0B00_0000u32 || opc == 0x0A00_0000u32,
            cond < 16,
            imm24 < 0x100_0000,
    ;
}

/// A supervisor call decodes to `Svc`, whatever its immediate.
pub proof fn lemma_svc_decodes(cond: u32, imm24: u32, caddr: u32)
    requires
        cond < 16,
        imm24 < 0x100_0000,
    ensures
        cond_of(svc_word(cond, imm24)) == cond,
        decoded(svc_word(cond, imm24), caddr) == Instruction::Svc,
{
    let word = svc_word(cond, imm24);
    assert({
        &&& (word >> 28) & 0xF == cond
        &&& (word >> 25) & 0x7 == 7
        &&& (((word >> 25) & 0x7) >> 1) & 0b11 == 3
        &&& (word >> 24) & 0xF == 15
    }) by (bit_vector)
        requires
            word == (cond << 28) | 0x0F00_0000 | imm24,
            cond < 16,
            imm24 < 0x100_0000,
    ;
}

/// A load from the literal pool at guest address `pc` with immediate
/// `imm12` decodes to the address `pc + 8 + imm12`, taken within 32 bits.
pub proof fn lemma_ldr_literal_decodes(cond: u32, rd: u32, imm12: u32, pc: u32)
    requires
        cond < 16,
        rd < 16,
        imm12 < 0x1000,
    ensures
        cond_of(ldr_literal_word(cond, rd, imm12)) == cond,
        decoded(ldr_literal_word(cond, rd, imm12), pc) == (Instruction::LdrLiteral {
            rd: rd as u8,
            addr: ((pc + 8 + imm12) % 0x1_0000_0000) as u32,
        }),
        pc + 8 + imm12 <= u32::MAX ==> decoded(ldr_literal_word(cond, rd, imm12), pc) == (
        Instruction::LdrLiteral { rd: rd as u8, addr: (pc + 8 + imm12) as u32 }),
{
    let word = ldr_literal_word(cond, rd, imm12);
    assert({
        &&& (word >> 28) & 0xF == cond
        &&& (((word >> 25) & 0x7) >> 1) & 0b11 == 1
        &&& (word >> 24) & 1 == 1
        &&& (word >> 23) & 1 == 1
        &&& (word >> 22) & 1 == 0
        &&& (word >> 21) & 1 == 0
        &&& (word >> 20) & 1 == 1
        &&& (word >> 16) & 0xF == 15
        &&& (word >> 12) & 0xF == rd
        &&& word & 0xFFF == imm12
    }) by (bit_vector)
        requires
            word == (cond << 28) | 0x059F_0000 | (rd << 12) | imm12,
            cond < 16,
            rd < 16,
            imm12 < 0x1000,
    ;
}

/// Rotates the 8-bit immediate right as the ARM encoding says: bits 7:0 of
/// `imm12` are the constant, bits 11:8 half the rotation.
pub fn decode_rotated_imm(imm12: u32) -> (rhs: u32)
    ensures
        rhs == rotated_imm(imm12),
{
    let half: u32 = (imm12 >> 8) & 0b1111;
    assert(half <= 15) by (bit_vector)
        requires
            half == (imm12 >> 8) & 0b1111,
    ;
    let rotate: u32 = half * 2;
    let value: u32 = imm12 & 0xff;
    if rotate == 0 {
        value
    } else {
        (value >> rotate) | (value << (32 - rotate))
    }
}

/// Turns a raw 32-bit ARM word, found at guest address `caddr`, into an
/// instruction and its condition. Every word decodes; what the decoder
/// does not know comes back as `Unknown` with the word in it.
pub fn decode_word(word: u32, caddr: u32) -> (r: InstructionContainer)
    ensures
        r.cond == cond_of(word),
        r.instruction == decoded(word, caddr),
        names_registers(r.instruction),
{
    let cond32: u32 = (word >> 28) & 0xF;
    // bits 27:25
    let top: u32 = (word >> 25) & 0x7;
    let rd32: u32 = (word >> 12) & 0xF;
    assert(cond32 <= 15 && rd32 <= 15) by (bit_vector)
        requires
            cond32 == (word >> 28) & 0xF,
            rd32 == (word >> 12) & 0xF,
    ;
    let cond: u8 = cond32 as u8;
    let rd: u8 = rd32 as u8;

    // load and store class
    if (top >> 1) & 0b11 == 0b01 {
        // preindex
        let p: bool = ((word >> 24) & 1) == 1;
        // add
        let u: bool = ((word >> 23) & 1) == 1;
        // byte
        let b: bool = ((word >> 22) & 1) == 1;
        // write back
        let w: bool = ((word >> 21) & 1) == 1;
        // load
        let l: bool = ((word >> 20) & 1) == 1;
        // base register
        let rn: u32 = (word >> 16) & 0xF;
        let imm12: u32 = word & 0xFFF;

        // literal-pool version
        if l && rn == 0b1111 && p && u && !w && !b {
            assert(imm12 <= 0xFFF) by (bit_vector)
                requires
                    imm12 == word & 0xFFF,
            ;
            // the PC that the instruction sees is its own address + 8
            let pc_seen: u32 = caddr.wrapping_add(8);
            let addr: u32 = pc_seen.wrapping_add(imm12);
            return InstructionContainer { cond, instruction: Instruction::LdrLiteral { rd, addr } };
        }
        // no other load and no store is known
        return InstructionContainer { cond, instruction: Instruction::Unknown(word) };
    }
    // branch and branch with link
    if top == 0b101 {
        let link: bool = ((word >> 24) & 0x1) == 1;
        let imm24: u32 = word & 0x00FF_FFFF;
        assert(imm24 <= 0xFF_FFFF) by (bit_vector)
            requires
                imm24 == word & 0x00FF_FFFF,
        ;
        // sign-extend 24 -> 32, then times four
        let signed: i32 = if imm24 < 0x80_0000 {
            imm24 as i32
        } else {
            imm24 as i32 - 0x100_0000
        };
        let target_offset: i32 = signed * 4;
        return InstructionContainer {
            cond,
            instruction: Instruction::Branch { link, target_offset },
        };
    }
    // SVC: bits 27:24 all set. Its 24-bit immediate is of no interest: the
    // Linux kernel ignores it too.
    if (word >> 24) & 0xF == 0b1111 {
        return InstructionContainer { cond, instruction: Instruction::Svc };
    }
    // data-processing with an immediate operand
    if top == 0b000 || top == 0b001 {
        let i_bit: bool = ((word >> 25) & 0x1) == 1;
        let opcode32: u32 = (word >> 21) & 0xF;
        assert(opcode32 <= 15) by (bit_vector)
            requires
                opcode32 == (word >> 21) & 0xF,
        ;
        if i_bit {
            match op_from_bits(opcode32 as u8) {
                Op::Mov => {
                    let rhs = decode_rotated_imm(word & 0xFFF);
                    return InstructionContainer {
                        cond,
                        instruction: Instruction::MovImm { rd, rhs },
                    };
                },
                _ => {},
            }
        }
    }
    InstructionContainer { cond, instruction: Instruction::Unknown(word) }
}

} // verus!
