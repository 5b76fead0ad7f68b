use vstd::prelude::*;

use crate::utils::{extract_nibbles, nibble_field, pow16};
use vstd::arithmetic::div_mod::{
    lemma_div_pos_is_pos, lemma_fundamental_div_mod, lemma_fundamental_div_mod_converse,
    lemma_mod_pos_bound,
};

verus! {

/// A decoded CHIP-8 instruction. `x` and `y` name registers, `n`, `nn` and
/// `nnn` are the low one, two and three nibbles of the opcode.
#[derive(Debug, Clone, Copy, PartialEq, Eq, Structural)]
pub enum Instruction {
    Unknown,
    Cls,  //00E0
    Rts,  //00EE
    Low,  //00FE
    High,  //00FF
    Jmp(usize),  //1nnn
    Jsr(usize),  //2nnn
    SkeqConst(usize, u8),  //3xnn
    SkneConst(usize, u8),  //4xnn
    Skeq(usize, usize),  //5xy0
    MovConst(usize, u8),  //6xnn
    AddConst(usize, u8),  //7xnn
    Mov(usize, usize),  //8xy0
    Or(usize, usize),  //8xy1
    And(usize, usize),  //8xy2
    Xor(usize, usize),  //8xy3
    Add(usize, usize),  //8xy4
    Sub(usize, usize),  //8xy5
    Shr(usize, usize),  //8xy6 (8x06)
    Rsb(usize, usize),  //8xy7
    Shl(usize, usize),  //8xyE (8x0E)
    Skne(usize, usize),  //9xy0
    Mvi(usize),  //Annn
    Jmi(usize),  //Bnnn
    Rand(usize, u8),  //Cxnn
    Sprite(usize, usize, u8),  //Dxyn
    Skpr(usize),  //Ex9E
    Skup(usize),  //ExA1
    Gdelay(usize),  //Fx07
    Key(usize),  //Fx0A
    Sdelay(usize),  //Fx15
    Ssound(usize),  //Fx18
    Adi(usize),  //Fx1E
    Font(usize),  //Fx29
    Xfont(usize),  //Fx30
    Bcd(usize),  //Fx33
    Str(usize),  //Fx55
    Ldr(usize),  //Fx65
}

impl Instruction {
    /// The operands are in the ranges that an opcode can encode: registers
    /// below 16, `n` below 16 and addresses below `0x1000`.
    pub open spec fn wf(self) -> bool {
        match self {
            Instruction::Jmp(nnn) | Instruction::Jsr(nnn) | Instruction::Mvi(nnn)
            | Instruction::Jmi(nnn) => nnn < 0x1000,
            Instruction::SkeqConst(x, _) | Instruction::SkneConst(x, _)
            | Instruction::MovConst(x, _) | Instruction::AddConst(x, _)
            | Instruction::Rand(x, _) => x < 16,
            Instruction::Skeq(x, y) | Instruction::Mov(x, y) | Instruction::Or(x, y)
            | Instruction::And(x, y) | Instruction::Xor(x, y) | Instruction::Add(x, y)
            | Instruction::Sub(x, y) | Instruction::Shr(x, y) | Instruction::Rsb(x, y)
            | Instruction::Shl(x, y) | Instruction::Skne(x, y) => x < 16 && y < 16,
            Instruction::Sprite(x, y, n) => x < 16 && y < 16 && n < 16,
            Instruction::Skpr(x) | Instruction::Skup(x) | Instruction::Gdelay(x)
            | Instruction::Key(x) | Instruction::Sdelay(x) | Instruction::Ssound(x)
            | Instruction::Adi(x) | Instruction::Font(x) | Instruction::Xfont(x)
            | Instruction::Bcd(x) | Instruction::Str(x) | Instruction::Ldr(x) => x < 16,
            _ => true,
        }
    }
}

/// The opcode of an instruction, by the documented CHIP-8 encodings: each
/// variant's comment above gives its pattern, `x`, `y`, `n`, `nn` and `nnn`
/// standing for its operands. `Unknown` has no opcode.
pub open spec fn encode(ins: Instruction) -> int {
    match ins {
        Instruction::Unknown => -1,
        Instruction::Cls => 0x00E0,
        Instruction::Rts => 0x00EE,
        Instruction::Low => 0x00FE,
        Instruction::High => 0x00FF,
        Instruction::Jmp(nnn) => 0x1000 + nnn,
        Instruction::Jsr(nnn) => 0x2000 + nnn,
        Instruction::SkeqConst(x, nn) => 0x3000 + 0x100 * x + nn,
        Instruction::SkneConst(x, nn) => 0x4000 + 0x100 * x + nn,
        Instruction::Skeq(x, y) => 0x5000 + 0x100 * x + 0x10 * y,
        Instruction::MovConst(x, nn) => 0x6000 + 0x100 * x + nn,
        Instruction::AddConst(x, nn) => 0x7000 + 0x100 * x + nn,
        Instruction::Mov(x, y) => 0x8000 + 0x100 * x + 0x10 * y,
        Instruction::Or(x, y) => 0x8001 + 0x100 * x + 0x10 * y,
        Instruction::And(x, y) => 0x8002 + 0x100 * x + 0x10 * y,
        Instruction::Xor(x, y) => 0x8003 + 0x100 * x + 0x10 * y,
        Instruction::Add(x, y) => 0x8004 + 0x100 * x + 0x10 * y,
        Instruction::Sub(x, y) => 0x8005 + 0x100 * x + 0x10 * y,
        Instruction::Shr(x, y) => 0x8006 + 0x100 * x + 0x10 * y,
        Instruction::Rsb(x, y) => 0x8007 + 0x100 * x + 0x10 * y,
        Instruction::Shl(x, y) => 0x800E + 0x100 * x + 0x10 * y,
        Instruction::Skne(x, y) => 0x9000 + 0x100 * x + 0x10 * y,
        Instruction::Mvi(nnn) => 0xA000 + nnn,
        Instruction::Jmi(nnn) => 0xB000 + nnn,
        Instruction::Rand(x, nn) => 0xC000 + 0x100 * x + nn,
        Instruction::Sprite(x, y, n) => 0xD000 + 0x100 * x + 0x10 * y + n,
        Instruction::Skpr(x) => 0xE09E + 0x100 * x,
        Instruction::Skup(x) => 0xE0A1 + 0x100 * x,
        Instruction::Gdelay(x) => 0xF007 + 0x100 * x,
        Instruction::Key(x) => 0xF00A + 0x100 * x,
        Instruction::Sdelay(x) => 0xF015 + 0x100 * x,
        Instruction::Ssound(x) => 0xF018 + 0x100 * x,
        Instruction::Adi(x) => 0xF01E + 0x100 * x,
        Instruction::Font(x) => 0xF029 + 0x100 * x,
        Instruction::Xfont(x) => 0xF030 + 0x100 * x,
        Instruction::Bcd(x) => 0xF033 + 0x100 * x,
        Instruction::Str(x) => 0xF055 + 0x100 * x,
        Instruction::Ldr(x) => 0xF065 + 0x100 * x,
    }
}

/// The instruction that `opcode` encodes, or `Unknown` when no instruction
/// with operands in range has that opcode.
pub open spec fn spec_decode(opcode: u16) -> Instruction {
    if exists|ins: Instruction| ins.wf() && #[trigger] encode(ins) == opcode {
        choose|ins: Instruction| ins.wf() && #[trigger] encode(ins) == opcode
    } else {
        Instruction::Unknown
    }
}

/// The decoder's case analysis on the opcode's nibbles, which the lemmas
/// below prove to invert `encode`.
spec fn decode_table(opcode: u16) -> Instruction {
    let kind = nibble_field(opcode, 3, 1);
    let x = nibble_field(opcode, 2, 1) as usize;
    let y = nibble_field(opcode, 1, 1) as usize;
    let n = nibble_field(opcode, 0, 1);
    let nn = nibble_field(opcode, 0, 2);
    let nnn = nibble_field(opcode, 0, 3) as usize;
    if kind == 0x0 {
        if x != 0 {
            Instruction::Unknown
        } else if nn == 0xE0 {
            Instruction::Cls
        } else if nn == 0xEE {
            Instruction::Rts
        } else if nn == 0xFE {
            Instruction::Low
        } else if nn == 0xFF {
            Instruction::High
        } else {
            Instruction::Unknown
        }
    } else if kind == 0x1 {
        Instruction::Jmp(nnn)
    } else if kind == 0x2 {
        Instruction::Jsr(nnn)
    } else if kind == 0x3 {
        Instruction::SkeqConst(x, nn as u8)
    } else if kind == 0x4 {
        Instruction::SkneConst(x, nn as u8)
    } else if kind == 0x5 {
        if n == 0 {
            Instruction::Skeq(x, y)
        } else {
            Instruction::Unknown
        }
    } else if kind == 0x6 {
        Instruction::MovConst(x, nn as u8)
    } else if kind == 0x7 {
        Instruction::AddConst(x, nn as u8)
    } else if kind == 0x8 {
        if n == 0x0 {
            Instruction::Mov(x, y)
        } else if n == 0x1 {
            Instruction::Or(x, y)
        } else if n == 0x2 {
            Instruction::And(x, y)
        } else if n == 0x3 {
            Instruction::Xor(x, y)
        } else if n == 0x4 {
            Instruction::Add(x, y)
        } else if n == 0x5 {
            Instruction::Sub(x, y)
        } else if n == 0x6 {
            Instruction::Shr(x, y)
        } else if n == 0x7 {
            Instruction::Rsb(x, y)
        } else if n == 0xE {
            Instruction::Shl(x, y)
        } else {
            Instruction::Unknown
        }
    } else if kind == 0x9 {
        if n == 0 {
            Instruction::Skne(x, y)
        } else {
            Instruction::Unknown
        }
    } else if kind == 0xA {
        Instruction::Mvi(nnn)
    } else if kind == 0xB {
        Instruction::Jmi(nnn)
    } else if kind == 0xC {
        Instruction::Rand(x, nn as u8)
    } else if kind == 0xD {
        Instruction::Sprite(x, y, n as u8)
    } else if kind == 0xE {
        if nn == 0x9E {
            Instruction::Skpr(x)
        } else if nn == 0xA1 {
            Instruction::Skup(x)
        } else {
            Instruction::Unknown
        }
    } else {
        if nn == 0x07 {
            Instruction::Gdelay(x)
        } else if nn == 0x0A {
            Instruction::Key(x)
        } else if nn == 0x15 {
            Instruction::Sdelay(x)
        } else if nn == 0x18 {
            Instruction::Ssound(x)
        } else if nn == 0x1E {
            Instruction::Adi(x)
        } else if nn == 0x29 {
            Instruction::Font(x)
        } else if nn == 0x30 {
            Instruction::Xfont(x)
        } else if nn == 0x33 {
            Instruction::Bcd(x)
        } else if nn == 0x55 {
            Instruction::Str(x)
        } else if nn == 0x65 {
            Instruction::Ldr(x)
        } else {
            Instruction::Unknown
        }
    }
}

/// A value made of the hexadecimal digits `h`, `x`, `y`, `n` has those
/// digits as its nibble fields.
proof fn lemma_fields(opcode: u16, h: int, x: int, y: int, n: int)
    requires
        0 <= h < 16,
        0 <= x < 16,
        0 <= y < 16,
        0 <= n < 16,
        opcode == 0x1000 * h + 0x100 * x + 0x10 * y + n,
    ensures
        nibble_field(opcode, 3, 1) == h,
        nibble_field(opcode, 2, 1) == x,
        nibble_field(opcode, 1, 1) == y,
        nibble_field(opcode, 0, 1) == n,
        nibble_field(opcode, 0, 2) == 0x10 * y + n,
        nibble_field(opcode, 0, 3) == 0x100 * x + 0x10 * y + n,
{
    reveal_with_fuel(pow16, 4);
    let v = opcode as int;
    lemma_fundamental_div_mod_converse(v, 0x1000, h, 0x100 * x + 0x10 * y + n);
    lemma_fundamental_div_mod_converse(h, 16, 0, h);
    lemma_fundamental_div_mod_converse(v, 0x100, 0x10 * h + x, 0x10 * y + n);
    lemma_fundamental_div_mod_converse(0x10 * h + x, 16, h, x);
    lemma_fundamental_div_mod_converse(v, 0x10, 0x100 * h + 0x10 * x + y, n);
    lemma_fundamental_div_mod_converse(0x100 * h + 0x10 * x + y, 16, 0x10 * h + x, y);
    lemma_fundamental_div_mod_converse(v, 1, v, 0);
}

/// Every 16-bit value is made of its four nibble fields.
proof fn lemma_digits(opcode: u16)
    ensures
        opcode == 0x1000 * nibble_field(opcode, 3, 1) + 0x100 * nibble_field(opcode, 2, 1) + 0x10
            * nibble_field(opcode, 1, 1) + nibble_field(opcode, 0, 1),
{
    reveal_with_fuel(pow16, 4);
    let v = opcode as int;
    lemma_fundamental_div_mod(v, 0x1000);
    lemma_fundamental_div_mod(v % 0x1000, 0x100);
    lemma_fundamental_div_mod(v % 0x100, 0x10);
    lemma_mod_pos_bound(v, 0x1000);
    lemma_mod_pos_bound(v % 0x1000, 0x100);
    lemma_mod_pos_bound(v % 0x100, 0x10);
    lemma_div_pos_is_pos(v, 0x1000);
    lemma_mod_pos_bound(v / 0x1000, 16);
    lemma_fields(
        opcode,
        v / 0x1000,
        (v % 0x1000) / 0x100,
        (v % 0x100) / 0x10,
        v % 0x10,
    );
}

/// Where the table finds an instruction, that instruction encodes the opcode.
proof fn lemma_table_encodes(opcode: u16)
    ensures
        decode_table(opcode).wf(),
        !(decode_table(opcode) is Unknown) ==> encode(decode_table(opcode)) == opcode,
{
    lemma_nibble_ranges(opcode);
    lemma_digits(opcode);
    lemma_fields(
        opcode,
        nibble_field(opcode, 3, 1) as int,
        nibble_field(opcode, 2, 1) as int,
        nibble_field(opcode, 1, 1) as int,
        nibble_field(opcode, 0, 1) as int,
    );
}

/// An instruction with operands in range is what the table finds for its opcode.
proof fn lemma_table_inverts(opcode: u16, ins: Instruction)
    requires
        ins.wf(),
        encode(ins) == opcode,
    ensures
        decode_table(opcode) == ins,
{
    match ins {
        Instruction::Unknown => {},
        Instruction::Cls => lemma_fields(opcode, 0, 0, 0xE, 0),
        Instruction::Rts => lemma_fields(opcode, 0, 0, 0xE, 0xE),
        Instruction::Low => lemma_fields(opcode, 0, 0, 0xF, 0xE),
        Instruction::High => lemma_fields(opcode, 0, 0, 0xF, 0xF),
        Instruction::Jmp(nnn) | Instruction::Jsr(nnn) | Instruction::Mvi(nnn)
        | Instruction::Jmi(nnn) => {
            let k = nnn as int;
            lemma_fundamental_div_mod(k, 0x100);
            lemma_fundamental_div_mod(k % 0x100, 0x10);
            lemma_mod_pos_bound(k, 0x100);
            lemma_mod_pos_bound(k % 0x100, 0x10);
            lemma_div_pos_is_pos(k, 0x100);
            lemma_div_pos_is_pos(k % 0x100, 0x10);
            lemma_fields(
                opcode,
                opcode as int / 0x1000,
                k / 0x100,
                (k % 0x100) / 0x10,
                k % 0x10,
            );
        },
        Instruction::SkeqConst(x, nn) | Instruction::SkneConst(x, nn)
        | Instruction::MovConst(x, nn) | Instruction::AddConst(x, nn)
        | Instruction::Rand(x, nn) => {
            let k = nn as int;
            lemma_fundamental_div_mod(k, 0x10);
            lemma_mod_pos_bound(k, 0x10);
            lemma_div_pos_is_pos(k, 0x10);
            lemma_fields(opcode, opcode as int / 0x1000, x as int, k / 0x10, k % 0x10);
        },
        Instruction::Skeq(x, y) | Instruction::Skne(x, y) => lemma_fields(
            opcode,
            opcode as int / 0x1000,
            x as int,
            y as int,
            0,
        ),
        Instruction::Mov(x, y) | Instruction::Or(x, y) | Instruction::And(x, y)
        | Instruction::Xor(x, y) | Instruction::Add(x, y) | Instruction::Sub(x, y)
        | Instruction::Shr(x, y) | Instruction::Rsb(x, y) | Instruction::Shl(x, y) => lemma_fields(
            opcode,
            8,
            x as int,
            y as int,
            opcode as int - 0x8000 - 0x100 * x - 0x10 * y,
        ),
        Instruction::Sprite(x, y, n) => lemma_fields(opcode, 0xD, x as int, y as int, n as int),
        Instruction::Skpr(x) | Instruction::Skup(x) | Instruction::Gdelay(x)
        | Instruction::Key(x) | Instruction::Sdelay(x) | Instruction::Ssound(x)
        | Instruction::Adi(x) | Instruction::Font(x) | Instruction::Xfont(x)
        | Instruction::Bcd(x) | Instruction::Str(x) | Instruction::Ldr(x) => {
            let low = opcode as int - 0x1000 * (opcode as int / 0x1000) - 0x100 * x;
            lemma_fields(opcode, opcode as int / 0x1000, x as int, low / 0x10, low % 0x10);
        },
    }
}

/// The table inverts `encode`, so it gives `spec_decode`.
proof fn lemma_table_is_decode(opcode: u16)
    ensures
        decode_table(opcode) == spec_decode(opcode),
{
    lemma_table_encodes(opcode);
    if exists|ins: Instruction| ins.wf() && #[trigger] encode(ins) == opcode {
        let ins = choose|ins: Instruction| ins.wf() && #[trigger] encode(ins) == opcode;
        lemma_table_inverts(opcode, ins);
    } else {
        if !(decode_table(opcode) is Unknown) {
            assert(decode_table(opcode).wf() && encode(decode_table(opcode)) == opcode);
        }
    }
}

/// The nibble fields of a 16-bit value lie in their ranges.
pub proof fn lemma_nibble_ranges(opcode: u16)
    ensures
        nibble_field(opcode, 3, 1) < 16,
        nibble_field(opcode, 2, 1) < 16,
        nibble_field(opcode, 1, 1) < 16,
        nibble_field(opcode, 0, 1) < 16,
        nibble_field(opcode, 0, 2) < 256,
        nibble_field(opcode, 0, 3) < 0x1000,
{
    reveal_with_fuel(pow16, 4);
}

/// Every opcode decodes to an instruction whose operands are in range;
/// decoding inverts `encode`, and an opcode decodes to `Unknown` exactly when
/// no instruction encodes to it.
pub proof fn lemma_decode_wf(opcode: u16)
    ensures
        spec_decode(opcode).wf(),
        !(spec_decode(opcode) is Unknown) ==> encode(spec_decode(opcode)) == opcode,
        spec_decode(opcode) is Unknown <==> forall|ins: Instruction|
            ins.wf() ==> #[trigger] encode(ins) != opcode,
        forall|ins: Instruction| ins.wf() && #[trigger] encode(ins) == opcode ==> spec_decode(opcode) == ins,
{
    lemma_table_is_decode(opcode);
    lemma_table_encodes(opcode);
    assert forall|ins: Instruction| ins.wf() && #[trigger] encode(ins) == opcode implies spec_decode(opcode) == ins by {
        lemma_table_inverts(opcode, ins);
    }
    if !(spec_decode(opcode) is Unknown) {
        assert(spec_decode(opcode).wf() && encode(spec_decode(opcode)) == opcode);
    }
}

/// Decode `opcode` into an instruction; opcodes outside the table decode to
/// `Instruction::Unknown`.
pub fn decode(opcode: u16) -> (ins: Instruction)
    ensures
        ins == spec_decode(opcode),
        ins.wf(),
        !(ins is Unknown) ==> encode(ins) == opcode,
        forall|other: Instruction| other.wf() && #[trigger] encode(other) == opcode ==> ins == other,
{
    proof {
        lemma_nibble_ranges(opcode);
        lemma_decode_wf(opcode);
        lemma_table_is_decode(opcode);
        assert forall|other: Instruction| other.wf() && #[trigger] encode(other) == opcode implies
            decode_table(opcode) == other by {
            lemma_table_inverts(opcode, other);
        }
    }
    let nibble = extract_nibbles(opcode, 3, 1);
    let x = extract_nibbles(opcode, 2, 1) as usize;
    let y = extract_nibbles(opcode, 1, 1) as usize;
    let n = extract_nibbles(opcode, 0, 1) as u8;
    let nn = extract_nibbles(opcode, 0, 2) as u8;
    let nnn = extract_nibbles(opcode, 0, 3) as usize;

    match nibble {
        0x0 => if x != 0 {
            Instruction::Unknown
        } else {
            match nn {
                0xE0 => Instruction::Cls,
                0xEE => Instruction::Rts,
                0xFE => Instruction::Low,
                0xFF => Instruction::High,
                _ => Instruction::Unknown,
            }
        },
        0x1 => Instruction::Jmp(nnn),
        0x2 => Instruction::Jsr(nnn),
        0x3 => Instruction::SkeqConst(x, nn),
        0x4 => Instruction::SkneConst(x, nn),
        0x5 => if n == 0 {
            Instruction::Skeq(x, y)
        } else {
            Instruction::Unknown
        },
        0x6 => Instruction::MovConst(x, nn),
        0x7 => Instruction::AddConst(x, nn),
        0x8 => match n {
            0x0 => Instruction::Mov(x, y),
            0x1 => Instruction::Or(x, y),
            0x2 => Instruction::And(x, y),
            0x3 => Instruction::Xor(x, y),
            0x4 => Instruction::Add(x, y),
            0x5 => Instruction::Sub(x, y),
            0x6 => Instruction::Shr(x, y),
            0x7 => Instruction::Rsb(x, y),
            0xE => Instruction::Shl(x, y),
            _ => Instruction::Unknown,
        },
        0x9 => if n == 0 {
            Instruction::Skne(x, y)
        } else {
            Instruction::Unknown
        },
        0xA => Instruction::Mvi(nnn),
        0xB => Instruction::Jmi(nnn),
        0xC => Instruction::Rand(x, nn),
        0xD => Instruction::Sprite(x, y, n),
        0xE => match nn {
            0x9E => Instruction::Skpr(x),
            0xA1 => Instruction::Skup(x),
            _ => Instruction::Unknown,
        },
        0xF => match nn {
            0x07 => Instruction::Gdelay(x),
            0x0A => Instruction::Key(x),
            0x15 => Instruction::Sdelay(x),
            0x18 => Instruction::Ssound(x),
            0x1E => Instruction::Adi(x),
            0x29 => Instruction::Font(x),
            0x30 => Instruction::Xfont(x),
            0x33 => Instruction::Bcd(x),
            0x55 => Instruction::Str(x),
            0x65 => Instruction::Ldr(x),
            _ => Instruction::Unknown,
        },
        _ => Instruction::Unknown,
    }
}

} // verus!
