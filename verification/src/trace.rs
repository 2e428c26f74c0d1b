//! A line-by-line trace of a running processor: a snapshot of the
//! registers, a disassembly of the next instruction, the top of the stack,
//! and the text of one trace line in which changed and affected values are
//! highlighted.

use vstd::prelude::*;
use vstd::string::{StringExecFns, StrSliceExecFns};
use crate::bus::Bus;
use crate::flags::{self, bit_of};
use crate::registers::{Registers, pair_value};

verus! {

/// The values that a trace line shows and that an instruction can read or
/// change.
#[derive(Debug, Clone, Copy, PartialEq, Eq, Structural)]
pub enum Fields {
    A,
    B,
    C,
    D,
    E,
    H,
    L,
    W,
    Z,
    Ix,
    Iy,
    Sp,
    Pc,
    Cf,
    Nf,
    Pf,
    Hf,
    Zf,
    Sf,
}

/// The six flags, in the order C, N, P/V, H, Z, S.
pub open spec fn flag_fields() -> Seq<Fields> {
    seq![Fields::Cf, Fields::Nf, Fields::Pf, Fields::Hf, Fields::Zf, Fields::Sf]
}

impl Fields {
    /// The six flags, in the order C, N, P/V, H, Z, S.
    pub fn flags() -> (r: Vec<Self>)
        ensures
            r@ == flag_fields(),
    {
        let mut r = Vec::new();
        r.push(Self::Cf);
        r.push(Self::Nf);
        r.push(Self::Pf);
        r.push(Self::Hf);
        r.push(Self::Zf);
        r.push(Self::Sf);
        r
    }
}

/// The upper-case hexadecimal digits.
pub open spec fn hex_alphabet() -> Seq<char> {
    "0123456789ABCDEF"@
}

/// A byte as two upper-case hexadecimal digits.
pub open spec fn hex_byte(value: u8) -> Seq<char> {
    seq![hex_alphabet()[value as int / 16], hex_alphabet()[value as int % 16]]
}

/// A word as four upper-case hexadecimal digits.
pub open spec fn hex_word(value: u16) -> Seq<char> {
    hex_byte((value / 256) as u8) + hex_byte((value % 256) as u8)
}

/// The hexadecimal digit for `value` (less than 16) as a string.
fn hex_digit(value: u8) -> (r: &'static str)
    requires
        value < 16,
    ensures
        r@ == seq![hex_alphabet()[value as int]],
{
    let digits = "0123456789ABCDEF";
    proof {
        reveal_strlit("0123456789ABCDEF");
    }
    let r = digits.substring_char(value as usize, value as usize + 1);
    assert(r@ =~= seq![hex_alphabet()[value as int]]);
    r
}

/// A byte as two upper-case hexadecimal digits.
pub fn u8_hex(value: u8) -> (r: String)
    ensures
        r@ == hex_byte(value),
{
    let mut r = String::from_str(hex_digit(value / 16));
    r.append(hex_digit(value % 16));
    assert(r@ =~= hex_byte(value));
    r
}

/// The word whose low byte is `low` and whose high byte is `high`, as four
/// upper-case hexadecimal digits.
pub fn u16_hex(low: u8, high: u8) -> (r: String)
    ensures
        r@ == hex_byte(high) + hex_byte(low),
{
    let mut r = u8_hex(high);
    let low_digits = u8_hex(low);
    r.append(low_digits.as_str());
    r
}

/// A word as four upper-case hexadecimal digits.
pub fn word_hex(value: u16) -> (r: String)
    ensures
        r@ == hex_word(value),
{
    u16_hex((value % 256) as u8, (value / 256) as u8)
}

/// The mark a trace line shows for a flag: a cross when it is set, a dot
/// when it is clear.
pub fn bit_mark(set: bool) -> (r: String)
    ensures
        r@ == (if set {
            "×"@
        } else {
            "·"@
        }),
{
    if set {
        String::from_str("×")
    } else {
        String::from_str("·")
    }
}

/// The name of the operand that a three-bit register field names.
pub open spec fn register_name(index: u8) -> Seq<char> {
    if index == 0 {
        "b"@
    } else if index == 1 {
        "c"@
    } else if index == 2 {
        "d"@
    } else if index == 3 {
        "e"@
    } else if index == 4 {
        "h"@
    } else if index == 5 {
        "l"@
    } else if index == 6 {
        "(HL)"@
    } else {
        "a"@
    }
}

/// The fields that the operand a three-bit register field names occupies
/// (the byte at HL shows as H and L).
pub open spec fn register_fields(index: u8) -> Seq<Fields> {
    if index == 0 {
        seq![Fields::B]
    } else if index == 1 {
        seq![Fields::C]
    } else if index == 2 {
        seq![Fields::D]
    } else if index == 3 {
        seq![Fields::E]
    } else if index == 4 {
        seq![Fields::H]
    } else if index == 5 {
        seq![Fields::L]
    } else if index == 6 {
        seq![Fields::H, Fields::L]
    } else {
        seq![Fields::A]
    }
}

/// The name of the condition that a three-bit condition field names.
pub open spec fn condition_name(condition: u8) -> Seq<char> {
    if condition == 0 {
        "NZ"@
    } else if condition == 1 {
        "Z"@
    } else if condition == 2 {
        "NC"@
    } else if condition == 3 {
        "C"@
    } else if condition == 4 {
        "NP"@
    } else if condition == 5 {
        "P"@
    } else if condition == 6 {
        "NS"@
    } else {
        "S"@
    }
}

/// The flag that a condition tests.
pub open spec fn condition_field(condition: u8) -> Fields {
    if condition <= 1 {
        Fields::Zf
    } else if condition <= 3 {
        Fields::Cf
    } else if condition <= 5 {
        Fields::Pf
    } else {
        Fields::Sf
    }
}

/// Copies a sequence of fields into a vector.
fn fields_vec(fields: &[Fields]) -> (r: Vec<Fields>)
    ensures
        r@ == fields@,
{
    let mut r = Vec::new();
    let mut i: usize = 0;
    while i < fields.len()
        invariant
            i <= fields@.len(),
            r@ == fields@.subrange(0, i as int),
        decreases fields@.len() - i,
    {
        r.push(fields[i]);
        i = i + 1;
        assert(r@ =~= fields@.subrange(0, i as int));
    }
    assert(fields@.subrange(0, fields@.len() as int) =~= fields@);
    r
}

/// Appends `second` to `first`.
fn chain_fields(first: Vec<Fields>, second: Vec<Fields>) -> (r: Vec<Fields>)
    ensures
        r@ == first@ + second@,
{
    let mut r = first;
    let mut i: usize = 0;
    let ghost start = r@;
    while i < second.len()
        invariant
            i <= second@.len(),
            r@ == start + second@.subrange(0, i as int),
        decreases second@.len() - i,
    {
        r.push(second[i]);
        i = i + 1;
        assert(r@ =~= start + second@.subrange(0, i as int));
    }
    assert(second@.subrange(0, second@.len() as int) =~= second@);
    r
}

/// The string made of `first` followed by `second`.
fn join2(first: &str, second: &str) -> (r: String)
    ensures
        r@ == first@ + second@,
{
    let mut r = String::from_str(first);
    r.append(second);
    r
}

/// The string made of `first`, `second` and `third`.
fn join3(first: &str, second: &str, third: &str) -> (r: String)
    ensures
        r@ == first@ + second@ + third@,
{
    let mut r = String::from_str(first);
    r.append(second);
    r.append(third);
    r
}

/// The string made of `first`, `second`, `third` and `fourth`.
fn join4(first: &str, second: &str, third: &str, fourth: &str) -> (r: String)
    ensures
        r@ == first@ + second@ + third@ + fourth@,
{
    let mut r = String::from_str(first);
    r.append(second);
    r.append(third);
    r.append(fourth);
    r
}

/// A byte operand: a dollar sign and two hexadecimal digits.
pub open spec fn byte_operand(value: u8) -> Seq<char> {
    "$"@ + hex_byte(value)
}

/// A word operand given by its low and high byte: a dollar sign and four
/// hexadecimal digits.
pub open spec fn word_operand(low: u8, high: u8) -> Seq<char> {
    "$"@ + hex_byte(high) + hex_byte(low)
}

/// The name of the register pair that LD rp,nn names.
pub open spec fn pair_name(p: u8) -> Seq<char> {
    if p == 0 {
        "BC"@
    } else if p == 1 {
        "DE"@
    } else if p == 2 {
        "HL"@
    } else {
        "SP"@
    }
}

/// The fields of the register pair that LD rp,nn names.
pub open spec fn pair_fields(p: u8) -> Seq<Fields> {
    if p == 0 {
        seq![Fields::B, Fields::C]
    } else if p == 1 {
        seq![Fields::D, Fields::E]
    } else if p == 2 {
        seq![Fields::H, Fields::L]
    } else {
        seq![Fields::Sp]
    }
}

/// The name of the register pair that PUSH and POP name.
pub open spec fn stack_pair_name(p: u8) -> Seq<char> {
    if p == 3 {
        "AF"@
    } else {
        pair_name(p)
    }
}

/// The fields of the register pair that PUSH and POP name.
pub open spec fn stack_pair_fields(p: u8) -> Seq<Fields> {
    if p == 3 {
        seq![Fields::A] + flag_fields()
    } else {
        pair_fields(p)
    }
}

/// Whether the trace can disassemble an opcode: it knows the unprefixed
/// instructions except INC rp, DEC rp and LD SP,HL.
pub open spec fn decodable(opcode: u8) -> bool {
    let g = opcode / 64;
    let op1 = (opcode / 8) % 8;
    let op2 = opcode % 8;
    if g == 0 {
        op2 != 3
    } else if g == 3 {
        !((op1 == 1 && op2 == 3) || (op2 == 5 && op1 % 2 == 1 && op1 != 1) || (op1 == 7 && op2 == 1))
    } else {
        true
    }
}

/// The disassembly of an instruction of group 0 and the fields it reads or
/// changes.
pub open spec fn disassembly_group0(op1: u8, op2: u8, low: u8, high: u8) -> (Seq<char>, Seq<Fields>) {
    if op2 == 0 {
        if op1 == 0 {
            ("NOP"@, seq![])
        } else if op1 == 1 {
            ("EX AF, AF'"@, seq![Fields::A] + flag_fields())
        } else if op1 == 2 {
            ("DJNZ"@, seq![Fields::Pc, Fields::B])
        } else if op1 == 3 {
            ("JR "@ + byte_operand(low), seq![Fields::Pc])
        } else if op1 == 4 {
            ("JR NZ, "@ + byte_operand(low), seq![Fields::Pc, Fields::Zf])
        } else if op1 == 5 {
            ("JR Z, "@ + byte_operand(low), seq![Fields::Pc, Fields::Zf])
        } else if op1 == 6 {
            ("JR NC, "@ + byte_operand(low), seq![Fields::Pc, Fields::Cf])
        } else {
            ("JR C, "@ + byte_operand(low), seq![Fields::Pc, Fields::Cf])
        }
    } else if op2 == 1 {
        if op1 % 2 == 0 {
            ("LD "@ + pair_name(op1 / 2) + ", "@ + word_operand(low, high), pair_fields(op1 / 2))
        } else {
            let source = if op1 == 1 {
                "bc"@
            } else if op1 == 3 {
                "de"@
            } else if op1 == 5 {
                "hl"@
            } else {
                "sp"@
            };
            ("ADD HL, "@ + source, seq![Fields::H, Fields::L])
        }
    } else if op2 == 2 {
        if op1 < 4 {
            let address = if op1 < 2 {
                "(BC)"@
            } else {
                "(DE)"@
            };
            let fields = if op1 < 2 {
                seq![Fields::B, Fields::C]
            } else {
                seq![Fields::D, Fields::E]
            };
            if op1 % 2 == 0 {
                ("LD "@ + address + ", A"@, fields)
            } else {
                ("LD A, "@ + address, fields)
            }
        } else if op1 == 4 {
            ("LD ("@ + word_operand(low, high) + "), HL"@, seq![Fields::H, Fields::L])
        } else if op1 == 5 {
            ("LD HL, ("@ + word_operand(low, high) + ")"@, seq![Fields::H, Fields::L])
        } else if op1 == 6 {
            ("LD ("@ + word_operand(low, high) + "), A"@, seq![Fields::A])
        } else {
            ("LD A, ("@ + word_operand(low, high) + ")"@, seq![Fields::A])
        }
    } else if op2 == 4 {
        ("INC "@ + register_name(op1), register_fields(op1))
    } else if op2 == 5 {
        ("DEC "@ + register_name(op1), register_fields(op1))
    } else if op2 == 6 {
        ("LD "@ + register_name(op1) + ", "@ + byte_operand(low), register_fields(op1))
    } else {
        if op1 == 0 {
            ("RLCA"@, seq![Fields::A])
        } else if op1 == 1 {
            ("RRCA"@, seq![Fields::A])
        } else if op1 == 2 {
            ("RLA"@, seq![Fields::A])
        } else if op1 == 3 {
            ("RRA"@, seq![Fields::A])
        } else if op1 == 4 {
            ("DAA"@, seq![Fields::A])
        } else if op1 == 5 {
            ("CPL"@, seq![Fields::A])
        } else if op1 == 6 {
            ("SCF"@, seq![Fields::Cf])
        } else {
            ("CCF"@, seq![Fields::Cf])
        }
    }
}

/// The disassembly of an instruction of group 1 or 2 and the fields it
/// reads or changes.
pub open spec fn disassembly_group12(g: u8, op1: u8, op2: u8) -> (Seq<char>, Seq<Fields>) {
    if g == 1 {
        if op1 == 6 && op2 == 6 {
            ("HALT"@, seq![])
        } else {
            ("LD "@ + register_name(op1) + ", "@ + register_name(op2), register_fields(op1) + register_fields(op2))
        }
    } else {
        let name = if op1 == 0 {
            "ADD A, "@
        } else if op1 == 1 {
            "ADC A, "@
        } else if op1 == 2 {
            "SUB A, "@
        } else if op1 == 3 {
            "SBC A, "@
        } else if op1 == 4 {
            "AND "@
        } else if op1 == 5 {
            "XOR "@
        } else if op1 == 6 {
            "OR "@
        } else {
            "CP "@
        };
        let fields = if op1 <= 1 {
            register_fields(op2)
        } else {
            seq![Fields::A] + register_fields(op2)
        };
        (name + register_name(op2), fields)
    }
}

/// The disassembly of an instruction of group 3 and the fields it reads or
/// changes.
pub open spec fn disassembly_group3(op1: u8, op2: u8, low: u8, high: u8) -> (Seq<char>, Seq<Fields>) {
    if op2 == 0 {
        ("RET "@ + condition_name(op1), seq![condition_field(op1), Fields::Pc])
    } else if op2 == 1 {
        if op1 % 2 == 0 {
            ("POP "@ + stack_pair_name(op1 / 2), stack_pair_fields(op1 / 2))
        } else if op1 == 1 {
            ("RET"@, seq![Fields::Pc])
        } else if op1 == 3 {
            ("EXX"@, seq![Fields::B, Fields::C, Fields::D, Fields::E])
        } else {
            ("JP (HL)"@, seq![Fields::Pc])
        }
    } else if op2 == 2 {
        ("JP "@ + condition_name(op1) + " "@ + word_operand(low, high), seq![Fields::Pc, Fields::H, Fields::L])
    } else if op2 == 3 {
        if op1 == 0 {
            ("JP "@ + word_operand(low, high), seq![Fields::Pc])
        } else if op1 == 2 {
            ("OUT n, A"@, seq![Fields::A])
        } else if op1 == 3 {
            ("IN A, (n)"@, seq![Fields::A])
        } else if op1 == 4 {
            ("EX (SP), HL"@, seq![Fields::Sp, Fields::H, Fields::L])
        } else if op1 == 5 {
            ("EX DE, HL"@, seq![Fields::D, Fields::E, Fields::H, Fields::L])
        } else if op1 == 6 {
            ("DI"@, seq![])
        } else {
            ("EI"@, seq![])
        }
    } else if op2 == 4 {
        ("CALL "@ + condition_name(op1) + " "@ + word_operand(low, high), seq![condition_field(op1), Fields::Pc])
    } else if op2 == 5 {
        if op1 % 2 == 0 {
            ("PUSH "@ + stack_pair_name(op1 / 2), stack_pair_fields(op1 / 2))
        } else {
            ("CALL "@ + word_operand(low, high), seq![Fields::Pc])
        }
    } else if op2 == 6 {
        let name = if op1 == 0 {
            "ADD A, n"@
        } else if op1 == 1 {
            "ADC A, n"@
        } else if op1 == 2 {
            "SUB A, n"@
        } else if op1 == 3 {
            "SBC A, n"@
        } else if op1 == 4 {
            "AND "@ + byte_operand(low)
        } else if op1 == 5 {
            "XOR "@ + byte_operand(low)
        } else if op1 == 6 {
            "OR "@ + byte_operand(low)
        } else {
            "CP "@ + byte_operand(low)
        };
        (name, seq![Fields::A])
    } else {
        let address = if op1 == 0 {
            "0"@
        } else if op1 == 1 {
            "8"@
        } else if op1 == 2 {
            "16"@
        } else if op1 == 3 {
            "24"@
        } else if op1 == 4 {
            "32"@
        } else if op1 == 5 {
            "40"@
        } else if op1 == 6 {
            "48"@
        } else {
            "56"@
        };
        ("RST "@ + address, seq![Fields::Pc])
    }
}

/// The disassembly of the instruction with opcode `opcode`, followed by
/// the bytes `low` and `high`, and the fields it reads or changes.
pub open spec fn disassembly(opcode: u8, low: u8, high: u8) -> (Seq<char>, Seq<Fields>) {
    let g = opcode / 64;
    let op1 = (opcode / 8) % 8;
    let op2 = opcode % 8;
    if g == 0 {
        disassembly_group0(op1, op2, low, high)
    } else if g == 3 {
        disassembly_group3(op1, op2, low, high)
    } else {
        disassembly_group12(g, op1, op2)
    }
}

/// Whether the trace can disassemble `opcode` (see [`decodable`]).
pub fn can_decode(opcode: u8) -> (r: bool)
    ensures
        r == decodable(opcode),
{
    let (group, op1, op2) = crate::decode::into_group_and_operands(opcode);
    if group == 0 {
        op2 != 3
    } else if group == 3 {
        !((op1 == 1 && op2 == 3) || (op2 == 5 && op1 % 2 == 1 && op1 != 1) || (op1 == 7 && op2 == 1))
    } else {
        true
    }
}

/// A list of one field.
fn list1(a: Fields) -> (r: Vec<Fields>)
    ensures
        r@ == seq![a],
{
    let mut r = Vec::new();
    r.push(a);
    assert(r@ =~= seq![a]);
    r
}

/// A list of two fields.
fn list2(a: Fields, b: Fields) -> (r: Vec<Fields>)
    ensures
        r@ == seq![a, b],
{
    let mut r = list1(a);
    r.push(b);
    assert(r@ =~= seq![a, b]);
    r
}

/// A list of three fields.
fn list3(a: Fields, b: Fields, c: Fields) -> (r: Vec<Fields>)
    ensures
        r@ == seq![a, b, c],
{
    let mut r = list2(a, b);
    r.push(c);
    assert(r@ =~= seq![a, b, c]);
    r
}

/// A list of four fields.
fn list4(a: Fields, b: Fields, c: Fields, d: Fields) -> (r: Vec<Fields>)
    ensures
        r@ == seq![a, b, c, d],
{
    let mut r = list3(a, b, c);
    r.push(d);
    assert(r@ =~= seq![a, b, c, d]);
    r
}

/// What a [`State`] holds.
pub struct StateView {
    pub pc: u16,
    pub sp: u16,
    pub cf: bool,
    pub nf: bool,
    pub pf: bool,
    pub hf: bool,
    pub zf: bool,
    pub sf: bool,
    pub a: u8,
    pub b: u8,
    pub c: u8,
    pub d: u8,
    pub e: u8,
    pub h: u8,
    pub l: u8,
    pub w: u8,
    pub z: u8,
    pub ix: u16,
    pub iy: u16,
    pub inst_text: Seq<char>,
    pub inst_fields: Seq<Fields>,
    pub stack: Seq<u16>,
}

/// The number of words of the stack that a trace line shows: up to five,
/// and only whole words below the top of memory.
pub open spec fn stack_word_count(sp: u16) -> int {
    if sp > 0xFFFD {
        0
    } else if (0xFFFD - sp) / 2 + 1 < 5 {
        (0xFFFD - sp) / 2 + 1
    } else {
        5
    }
}

/// The words at the top of the stack that a trace line shows.
pub open spec fn stack_words(memory: Seq<u8>, sp: u16) -> Seq<u16> {
    Seq::new(
        stack_word_count(sp) as nat,
        |i: int| pair_value(memory[sp + 2 * i + 1], memory[sp + 2 * i]),
    )
}

/// Words as four-digit hexadecimal numbers separated by commas.
pub open spec fn joined_words(words: Seq<u16>) -> Seq<char>
    decreases words.len(),
{
    if words.len() == 0 {
        seq![]
    } else if words.len() == 1 {
        hex_word(words[0])
    } else {
        joined_words(words.drop_last()) + ","@ + hex_word(words.last())
    }
}

/// The stack column of a trace line: the words, and an ellipsis when five
/// are shown (there may be more).
pub open spec fn stack_text(words: Seq<u16>) -> Seq<char> {
    if words.len() == 5 {
        joined_words(words) + "…"@
    } else {
        joined_words(words)
    }
}

/// `text` padded with spaces to 15 characters.
pub open spec fn padded(text: Seq<char>) -> Seq<char> {
    if text.len() < 15 {
        text + Seq::new((15 - text.len()) as nat, |i: int| ' ')
    } else {
        text
    }
}

/// The column titles of a trace.
pub open spec fn labels_text() -> Seq<char> {
    "pc   inst            sp    C N P H Z S  a  b  c  d  e  h  l  w  z  ix   iy    stack\r\n"@
}

/// The rule drawn under (or over) the column titles.
pub open spec fn underlines_text() -> Seq<char> {
    "▔▔▔▔ ▔▔▔▔▔▔▔▔▔▔▔▔▔▔▔ ▔▔▔▔  ▔ ▔ ▔ ▔ ▔ ▔  ▔▔ ▔▔ ▔▔ ▔▔ ▔▔ ▔▔ ▔▔ ▔▔ ▔▔ ▔▔▔▔ ▔▔▔▔  ▔▔▔▔▔\r\n"@
}

/// The text, whether it changed, and whether the previous instruction
/// affects it, of the `i`th of the 19 value columns of a trace line (pc,
/// sp, the six flags, a, b, c, d, e, h, l, w, z, ix, iy). The pc column
/// shows the address of the previous instruction.
pub open spec fn cell(current: StateView, previous: StateView, i: int) -> (Seq<char>, bool, bool) {
    let affects = previous.inst_fields;
    if i == 0 {
        (hex_word(previous.pc), false, affects.contains(Fields::Pc))
    } else if i == 1 {
        (hex_word(current.sp), current.sp != previous.sp, affects.contains(Fields::Sp))
    } else if i == 2 {
        (mark_text(current.cf), current.cf != previous.cf, affects.contains(Fields::Cf))
    } else if i == 3 {
        (mark_text(current.nf), current.nf != previous.nf, affects.contains(Fields::Nf))
    } else if i == 4 {
        (mark_text(current.pf), current.pf != previous.pf, affects.contains(Fields::Pf))
    } else if i == 5 {
        (mark_text(current.hf), current.hf != previous.hf, affects.contains(Fields::Hf))
    } else if i == 6 {
        (mark_text(current.zf), current.zf != previous.zf, affects.contains(Fields::Zf))
    } else if i == 7 {
        (mark_text(current.sf), current.sf != previous.sf, affects.contains(Fields::Sf))
    } else if i == 8 {
        (hex_byte(current.a), current.a != previous.a, affects.contains(Fields::A))
    } else if i == 9 {
        (hex_byte(current.b), current.b != previous.b, affects.contains(Fields::B))
    } else if i == 10 {
        (hex_byte(current.c), current.c != previous.c, affects.contains(Fields::C))
    } else if i == 11 {
        (hex_byte(current.d), current.d != previous.d, affects.contains(Fields::D))
    } else if i == 12 {
        (hex_byte(current.e), current.e != previous.e, affects.contains(Fields::E))
    } else if i == 13 {
        (hex_byte(current.h), current.h != previous.h, affects.contains(Fields::H))
    } else if i == 14 {
        (hex_byte(current.l), current.l != previous.l, affects.contains(Fields::L))
    } else if i == 15 {
        (hex_byte(current.w), current.w != previous.w, affects.contains(Fields::W))
    } else if i == 16 {
        (hex_byte(current.z), current.z != previous.z, affects.contains(Fields::Z))
    } else if i == 17 {
        (hex_word(current.ix), current.ix != previous.ix, affects.contains(Fields::Ix))
    } else {
        (hex_word(current.iy), current.iy != previous.iy, affects.contains(Fields::Iy))
    }
}

/// The mark for a flag: a cross when set, a dot when clear.
pub open spec fn mark_text(set: bool) -> Seq<char> {
    if set {
        "×"@
    } else {
        "·"@
    }
}

/// The separator after the `k`th value column: two spaces after the sign
/// flag (7) and after iy (18), one space elsewhere.
pub open spec fn separator(k: int) -> Seq<char> {
    if k == 7 || k == 18 {
        "  "@
    } else {
        " "@
    }
}

/// The start of a trace line up to and including the `count`th value
/// column (at least 2) and its separator.
pub open spec fn line_prefix(cells: Seq<Seq<char>>, inst: Seq<char>, count: int) -> Seq<char>
    decreases count,
{
    if count <= 2 {
        cells[0] + " "@ + inst + " "@ + cells[1] + "  "@
    } else {
        line_prefix(cells, inst, count - 1) + cells[count - 1] + separator(count - 1)
    }
}

/// A trace line made of the 19 rendered value columns `cells`, the padded
/// instruction and the stack column: pc, the instruction, sp, the six flags,
/// a, b, c, d, e, h, l, w, z, ix, iy and the stack, separated by spaces.
pub open spec fn line_text(cells: Seq<Seq<char>>, inst: Seq<char>, stack: Seq<char>) -> Seq<char> {
    line_prefix(cells, inst, 19) + stack + "\r\n"@
}

/// A snapshot of the registers shown by a trace line, with the next
/// instruction and the top of the stack.
pub struct State {
    pc: u16,
    sp: u16,
    cf: bool,
    nf: bool,
    pf: bool,
    hf: bool,
    zf: bool,
    sf: bool,
    a: u8,
    b: u8,
    c: u8,
    d: u8,
    e: u8,
    h: u8,
    l: u8,
    w: u8,
    z: u8,
    ix: u16,
    iy: u16,
    inst: (String, Vec<Fields>),
    stack: Vec<u16>,
}

impl State {
    /// The name of the operand that a three-bit register field names.
    pub fn register_name_by_index(index: u8) -> (r: String)
        requires
            index < 8,
        ensures
            r@ == register_name(index),
    {
        String::from_str(
            match index {
                0 => "b",
                1 => "c",
                2 => "d",
                3 => "e",
                4 => "h",
                5 => "l",
                6 => "(HL)",
                _ => "a",
            },
        )
    }

    /// The fields that the operand a three-bit register field names
    /// occupies.
    pub fn field_by_index(index: u8) -> (r: Vec<Fields>)
        requires
            index < 8,
        ensures
            r@ == register_fields(index),
    {
        let mut r = Vec::new();
        match index {
            0 => r.push(Fields::B),
            1 => r.push(Fields::C),
            2 => r.push(Fields::D),
            3 => r.push(Fields::E),
            4 => r.push(Fields::H),
            5 => r.push(Fields::L),
            6 => {
                r.push(Fields::H);
                r.push(Fields::L);
            },
            _ => r.push(Fields::A),
        }
        assert(r@ =~= register_fields(index));
        r
    }

    /// The name of the condition that a three-bit condition field names.
    pub fn condition_to_string(condition: u8) -> (r: String)
        requires
            condition < 8,
        ensures
            r@ == condition_name(condition),
    {
        String::from_str(
            match condition {
                0 => "NZ",
                1 => "Z",
                2 => "NC",
                3 => "C",
                4 => "NP",
                5 => "P",
                6 => "NS",
                _ => "S",
            },
        )
    }

    /// The flag that a condition tests, as a one-element list.
    pub fn condition_to_fields(condition: u8) -> (r: Vec<Fields>)
        requires
            condition < 8,
        ensures
            r@ == seq![condition_field(condition)],
    {
        let mut r = Vec::new();
        r.push(
            match condition {
                0 | 1 => Fields::Zf,
                2 | 3 => Fields::Cf,
                4 | 5 => Fields::Pf,
                _ => Fields::Sf,
            },
        );
        assert(r@ =~= seq![condition_field(condition)]);
        r
    }

    /// An instruction that affects no field.
    pub fn simple(name: &str) -> (r: (String, Vec<Fields>))
        ensures
            r.0@ == name@,
            r.1@ == Seq::<Fields>::empty(),
    {
        (String::from_str(name), Vec::new())
    }

    /// An instruction that affects the accumulator.
    pub fn accumulator(name: &str) -> (r: (String, Vec<Fields>))
        ensures
            r.0@ == name@,
            r.1@ == seq![Fields::A],
    {
        let mut fields = Vec::new();
        fields.push(Fields::A);
        assert(fields@ =~= seq![Fields::A]);
        (String::from_str(name), fields)
    }

    /// An instruction that affects the accumulator and `fields`.
    pub fn accumulator_and_fields(name: &str, fields: Vec<Fields>) -> (r: (String, Vec<Fields>))
        ensures
            r.0@ == name@,
            r.1@ == seq![Fields::A] + fields@,
    {
        let mut all_fields = Vec::new();
        all_fields.push(Fields::A);
        assert(all_fields@ =~= seq![Fields::A]);
        (String::from_str(name), chain_fields(all_fields, fields))
    }

    /// A byte as two upper-case hexadecimal digits.
    pub fn u8_hex(value: u8) -> (r: String)
        ensures
            r@ == hex_byte(value),
    {
        u8_hex(value)
    }

    /// The word made of `low` and `high`, as four upper-case hexadecimal
    /// digits.
    pub fn u16_hex(low: u8, high: u8) -> (r: String)
        ensures
            r@ == hex_byte(high) + hex_byte(low),
    {
        u16_hex(low, high)
    }
}

/// A byte operand: a dollar sign and two hexadecimal digits.
fn byte_operand_text(value: u8) -> (r: String)
    ensures
        r@ == byte_operand(value),
{
    let digits = u8_hex(value);
    join2("$", digits.as_str())
}

/// A word operand: a dollar sign and four hexadecimal digits.
fn word_operand_text(low: u8, high: u8) -> (r: String)
    ensures
        r@ == word_operand(low, high),
{
    let digits = u16_hex(low, high);
    let r = join2("$", digits.as_str());
    assert(r@ =~= word_operand(low, high));
    r
}

/// The fields of the register pair that PUSH and POP name.
fn stack_pair_field_list(p: u8) -> (r: Vec<Fields>)
    requires
        p < 4,
    ensures
        r@ == stack_pair_fields(p),
{
    match p {
        0 => list2(Fields::B, Fields::C),
        1 => list2(Fields::D, Fields::E),
        2 => list2(Fields::H, Fields::L),
        _ => {
            let r = chain_fields(list1(Fields::A), Fields::flags());
            r
        },
    }
}

/// The name of the register pair that PUSH and POP name.
fn stack_pair_name_text(p: u8) -> (r: &'static str)
    requires
        p < 4,
    ensures
        r@ == stack_pair_name(p),
{
    match p {
        0 => "BC",
        1 => "DE",
        2 => "HL",
        _ => "AF",
    }
}

impl State {
    fn decode_group0(op1: u8, op2: u8, low: u8, high: u8) -> (r: (String, Vec<Fields>))
        requires
            op1 < 8,
            op2 < 8,
            op2 != 3,
        ensures
            (r.0@, r.1@) == disassembly_group0(op1, op2, low, high),
    {
        match op2 {
            0 => match op1 {
                0 => Self::simple("NOP"),
                1 => Self::accumulator_and_fields("EX AF, AF'", Fields::flags()),
                2 => (String::from_str("DJNZ"), list2(Fields::Pc, Fields::B)),
                3 => {
                    let operand = byte_operand_text(low);
                    (join2("JR ", operand.as_str()), list1(Fields::Pc))
                },
                4 => {
                    let operand = byte_operand_text(low);
                    (join2("JR NZ, ", operand.as_str()), list2(Fields::Pc, Fields::Zf))
                },
                5 => {
                    let operand = byte_operand_text(low);
                    (join2("JR Z, ", operand.as_str()), list2(Fields::Pc, Fields::Zf))
                },
                6 => {
                    let operand = byte_operand_text(low);
                    (join2("JR NC, ", operand.as_str()), list2(Fields::Pc, Fields::Cf))
                },
                _ => {
                    let operand = byte_operand_text(low);
                    (join2("JR C, ", operand.as_str()), list2(Fields::Pc, Fields::Cf))
                },
            },
            1 => {
                if op1 % 2 == 0 {
                    let (name, fields) = match op1 / 2 {
                        0 => ("BC", list2(Fields::B, Fields::C)),
                        1 => ("DE", list2(Fields::D, Fields::E)),
                        2 => ("HL", list2(Fields::H, Fields::L)),
                        _ => ("SP", list1(Fields::Sp)),
                    };
                    let operand = word_operand_text(low, high);
                    (join4("LD ", name, ", ", operand.as_str()), fields)
                } else {
                    let source = match op1 {
                        1 => "bc",
                        3 => "de",
                        5 => "hl",
                        _ => "sp",
                    };
                    (join2("ADD HL, ", source), list2(Fields::H, Fields::L))
                }
            },
            2 => {
                if op1 < 4 {
                    let address = if op1 < 2 {
                        "(BC)"
                    } else {
                        "(DE)"
                    };
                    let fields = if op1 < 2 {
                        list2(Fields::B, Fields::C)
                    } else {
                        list2(Fields::D, Fields::E)
                    };
                    if op1 % 2 == 0 {
                        (join3("LD ", address, ", A"), fields)
                    } else {
                        (join2("LD A, ", address), fields)
                    }
                } else {
                    let operand = word_operand_text(low, high);
                    match op1 {
                        4 => (join3("LD (", operand.as_str(), "), HL"), list2(Fields::H, Fields::L)),
                        5 => (join3("LD HL, (", operand.as_str(), ")"), list2(Fields::H, Fields::L)),
                        6 => (join3("LD (", operand.as_str(), "), A"), list1(Fields::A)),
                        _ => (join3("LD A, (", operand.as_str(), ")"), list1(Fields::A)),
                    }
                }
            },
            4 => {
                let name = Self::register_name_by_index(op1);
                (join2("INC ", name.as_str()), Self::field_by_index(op1))
            },
            5 => {
                let name = Self::register_name_by_index(op1);
                (join2("DEC ", name.as_str()), Self::field_by_index(op1))
            },
            6 => {
                let name = Self::register_name_by_index(op1);
                let operand = byte_operand_text(low);
                (join4("LD ", name.as_str(), ", ", operand.as_str()), Self::field_by_index(op1))
            },
            _ => match op1 {
                0 => Self::accumulator("RLCA"),
                1 => Self::accumulator("RRCA"),
                2 => Self::accumulator("RLA"),
                3 => Self::accumulator("RRA"),
                4 => Self::accumulator("DAA"),
                5 => Self::accumulator("CPL"),
                6 => (String::from_str("SCF"), list1(Fields::Cf)),
                _ => (String::from_str("CCF"), list1(Fields::Cf)),
            },
        }
    }

    fn decode_group12(group: u8, op1: u8, op2: u8) -> (r: (String, Vec<Fields>))
        requires
            group == 1 || group == 2,
            op1 < 8,
            op2 < 8,
        ensures
            (r.0@, r.1@) == disassembly_group12(group, op1, op2),
    {
        if group == 1 {
            if op1 == 6 && op2 == 6 {
                Self::simple("HALT")
            } else {
                let dest = Self::register_name_by_index(op1);
                let src = Self::register_name_by_index(op2);
                (
                    join4("LD ", dest.as_str(), ", ", src.as_str()),
                    chain_fields(Self::field_by_index(op1), Self::field_by_index(op2)),
                )
            }
        } else {
            let name = match op1 {
                0 => "ADD A, ",
                1 => "ADC A, ",
                2 => "SUB A, ",
                3 => "SBC A, ",
                4 => "AND ",
                5 => "XOR ",
                6 => "OR ",
                _ => "CP ",
            };
            let register = Self::register_name_by_index(op2);
            let text = join2(name, register.as_str());
            if op1 <= 1 {
                (text, Self::field_by_index(op2))
            } else {
                let (text, fields) = Self::accumulator_and_fields(text.as_str(), Self::field_by_index(op2));
                (text, fields)
            }
        }
    }

    fn decode_group3(op1: u8, op2: u8, low: u8, high: u8) -> (r: (String, Vec<Fields>))
        requires
            op1 < 8,
            op2 < 8,
            !((op1 == 1 && op2 == 3) || (op2 == 5 && op1 % 2 == 1 && op1 != 1) || (op1 == 7 && op2 == 1)),
        ensures
            (r.0@, r.1@) == disassembly_group3(op1, op2, low, high),
    {
        match op2 {
            0 => {
                let condition = Self::condition_to_string(op1);
                (
                    join2("RET ", condition.as_str()),
                    chain_fields(Self::condition_to_fields(op1), list1(Fields::Pc)),
                )
            },
            1 => {
                if op1 % 2 == 0 {
                    (join2("POP ", stack_pair_name_text(op1 / 2)), stack_pair_field_list(op1 / 2))
                } else if op1 == 1 {
                    (String::from_str("RET"), list1(Fields::Pc))
                } else if op1 == 3 {
                    (String::from_str("EXX"), list4(Fields::B, Fields::C, Fields::D, Fields::E))
                } else {
                    (String::from_str("JP (HL)"), list1(Fields::Pc))
                }
            },
            2 => {
                let condition = Self::condition_to_string(op1);
                let operand = word_operand_text(low, high);
                (
                    join4("JP ", condition.as_str(), " ", operand.as_str()),
                    list3(Fields::Pc, Fields::H, Fields::L),
                )
            },
            3 => match op1 {
                0 => {
                    let operand = word_operand_text(low, high);
                    (join2("JP ", operand.as_str()), list1(Fields::Pc))
                },
                2 => Self::accumulator("OUT n, A"),
                3 => Self::accumulator("IN A, (n)"),
                4 => (String::from_str("EX (SP), HL"), list3(Fields::Sp, Fields::H, Fields::L)),
                5 => (String::from_str("EX DE, HL"), list4(Fields::D, Fields::E, Fields::H, Fields::L)),
                6 => Self::simple("DI"),
                _ => Self::simple("EI"),
            },
            4 => {
                let condition = Self::condition_to_string(op1);
                let operand = word_operand_text(low, high);
                (
                    join4("CALL ", condition.as_str(), " ", operand.as_str()),
                    chain_fields(Self::condition_to_fields(op1), list1(Fields::Pc)),
                )
            },
            5 => {
                if op1 % 2 == 0 {
                    (join2("PUSH ", stack_pair_name_text(op1 / 2)), stack_pair_field_list(op1 / 2))
                } else {
                    let operand = word_operand_text(low, high);
                    (join2("CALL ", operand.as_str()), list1(Fields::Pc))
                }
            },
            6 => {
                if op1 < 4 {
                    Self::accumulator(
                        match op1 {
                            0 => "ADD A, n",
                            1 => "ADC A, n",
                            2 => "SUB A, n",
                            _ => "SBC A, n",
                        },
                    )
                } else {
                    let name = match op1 {
                        4 => "AND ",
                        5 => "XOR ",
                        6 => "OR ",
                        _ => "CP ",
                    };
                    let operand = byte_operand_text(low);
                    let text = join2(name, operand.as_str());
                    Self::accumulator(text.as_str())
                }
            },
            _ => {
                let address = match op1 {
                    0 => "0",
                    1 => "8",
                    2 => "16",
                    3 => "24",
                    4 => "32",
                    5 => "40",
                    6 => "48",
                    _ => "56",
                };
                (join2("RST ", address), list1(Fields::Pc))
            },
        }
    }

    /// The disassembly of the instruction with opcode `opcode` followed by
    /// the bytes `next_low` and `next_high`, and the fields it reads or
    /// changes.
    pub fn decode(opcode: u8, next_low: u8, next_high: u8) -> (r: (String, Vec<Fields>))
        requires
            decodable(opcode),
        ensures
            (r.0@, r.1@) == disassembly(opcode, next_low, next_high),
    {
        let (group, op1, op2) = crate::decode::into_group_and_operands(opcode);
        if group == 0 {
            Self::decode_group0(op1, op2, next_low, next_high)
        } else if group == 3 {
            Self::decode_group3(op1, op2, next_low, next_high)
        } else {
            Self::decode_group12(group, op1, op2)
        }
    }
}

#[verifier::external_type_specification]
#[verifier::external_body]
pub struct ExColoredString(colored::ColoredString);

/// The plain text that a `colored::ColoredString` holds (its public `input`
/// field, which it also dereferences to), without colour or style.
pub uninterp spec fn colored_text(text: colored::ColoredString) -> Seq<char>;

/// The escape sequence that ends a styled stretch of terminal text.
pub open spec fn reset_code() -> Seq<char> {
    seq!['\x1b', '[', '0', 'm']
}

/// Whether `text` holds the reset sequence somewhere.
pub open spec fn has_reset(text: Seq<char>) -> bool {
    exists|i: int| 0 <= i && i + 4 <= text.len() && #[trigger] text.subrange(i, i + 4) == reset_code()
}

/// `text` between a style sequence with the parameters `codes` and the reset
/// sequence.
pub open spec fn styled(text: Seq<char>, codes: Seq<char>) -> Seq<char> {
    seq!['\x1b', '['] + codes + seq!['m'] + text + reset_code()
}

/// Whether `result` is `text` as a terminal string: either the text alone
/// (colouring is off) or the text wrapped in some style sequence and the reset
/// sequence (colouring is on).
pub open spec fn rendered_as(result: Seq<char>, text: Seq<char>) -> bool {
    result == text || exists|codes: Seq<char>| result == #[trigger] styled(text, codes)
}

/// The style parameters that a `colored::ColoredString` is written with
/// (`Style::to_str`: empty for no style, `4` for underline alone).
pub uninterp spec fn colored_style_code(text: colored::ColoredString) -> Seq<char>;

/// Whether a `colored::ColoredString` has a background colour.
pub uninterp spec fn colored_has_background(text: colored::ColoredString) -> bool;

/// The parameters that a `colored::ColoredString` writes for its foreground
/// colour when the terminal supports 24-bit colour (`Color::to_fg_str`);
/// empty when it has no foreground colour.
pub uninterp spec fn colored_foreground_code(text: colored::ColoredString) -> Seq<char>;

/// The parameters that a `colored::ColoredString` writes for its foreground
/// colour when `COLORTERM` does not announce 24-bit colour: for a 24-bit
/// colour, the code of the nearest of the sixteen plain colours.
pub uninterp spec fn colored_fallback_code(text: colored::ColoredString) -> Seq<char>;

/// The code of the plain colour that colored puts in place of the 24-bit
/// colour (`red`, `green`, `blue`) on a terminal without 24-bit colour.
pub uninterp spec fn nearest_plain_code(red: u8, green: u8, blue: u8) -> Seq<char>;

/// The decimal digit with value `n` (below 10).
pub open spec fn digit_char(n: int) -> char {
    (n + 48) as char
}

/// A byte in decimal, without leading zeros.
pub open spec fn decimal(n: u8) -> Seq<char> {
    if n < 10 {
        seq![digit_char(n as int)]
    } else if n < 100 {
        seq![digit_char(n as int / 10), digit_char(n as int % 10)]
    } else {
        seq![digit_char(n as int / 100), digit_char((n as int / 10) % 10), digit_char(n as int % 10)]
    }
}

/// The foreground parameters of a 24-bit colour: `38;2;red;green;blue`.
pub open spec fn truecolor_code(red: u8, green: u8, blue: u8) -> Seq<char> {
    seq!['3', '8', ';', '2', ';'] + decimal(red) + seq![';'] + decimal(green) + seq![';'] + decimal(blue)
}

/// The foreground parameters of white.
pub open spec fn white_code() -> Seq<char> {
    seq!['3', '7']
}

/// The parameters of a style sequence: the style parameters (if any), then
/// the foreground parameters, separated by `;`.
pub open spec fn style_codes(style: Seq<char>, foreground: Seq<char>) -> Seq<char> {
    if style.len() == 0 {
        foreground
    } else {
        style + seq![';'] + foreground
    }
}

/// The underline style parameter when `underlined`, none otherwise.
pub open spec fn underline_code(underlined: bool) -> Seq<char> {
    if underlined {
        seq!['4']
    } else {
        Seq::empty()
    }
}

/// Whether `result` is what [`State::mark`] may give for `text`: the text
/// alone (colouring off), or the text styled with the highlight colour
/// (229, 0, 139) when it changed and white otherwise, underlined when the
/// instruction affects it. The highlight colour is written as a 24-bit colour
/// or, on a terminal without 24-bit colour, as the nearest plain colour.
pub open spec fn mark_rendering(result: Seq<char>, has_changed: bool, is_effected: bool, text: Seq<char>) -> bool {
    let style = underline_code(is_effected);
    ||| result == text
    ||| has_changed && result == styled(text, style_codes(style, truecolor_code(229, 0, 139)))
    ||| has_changed && result == styled(text, style_codes(style, nearest_plain_code(229, 0, 139)))
    ||| !has_changed && result == styled(text, style_codes(style, white_code()))
}

/// A text without the escape character holds no reset sequence.
proof fn lemma_no_escape_no_reset(text: Seq<char>)
    requires
        forall|k: int| 0 <= k < text.len() ==> text[k] != '\x1b',
    ensures
        !has_reset(text),
{
    if has_reset(text) {
        let i = choose|i: int| 0 <= i && i + 4 <= text.len() && #[trigger] text.subrange(i, i + 4) == reset_code();
        assert(text.subrange(i, i + 4)[0] == text[i]);
    }
}

/// The text of a value column holds no reset sequence: it is made of
/// hexadecimal digits or is a single mark.
proof fn lemma_cell_text_has_no_reset(current: StateView, previous: StateView, i: int)
    requires
        0 <= i < 19,
    ensures
        !has_reset(cell(current, previous, i).0),
{
    reveal_strlit("0123456789ABCDEF");
    reveal_strlit("×");
    reveal_strlit("·");
    assert forall|k: int| 0 <= k < 16 implies hex_alphabet()[k] != '\x1b' by {}
    let text = cell(current, previous, i).0;
    assert forall|k: int| 0 <= k < text.len() implies text[k] != '\x1b' by {
        if 2 <= i <= 7 {
            assert(text.len() == 1);
        }
    }
    lemma_no_escape_no_reset(text);
}

/// What rendering the coloured string `text` may give: without a reset
/// sequence in its plain text, the plain text alone or the plain text in a
/// style sequence; for a string with a foreground colour and no background,
/// the style sequence holds its style parameters and its foreground
/// parameters, for a 24-bit terminal or the fallback ones.
pub open spec fn render_outcome(result: Seq<char>, text: colored::ColoredString) -> bool {
    let plain = colored_text(text);
    &&& !has_reset(plain) ==> rendered_as(result, plain)
    &&& !has_reset(plain) && !colored_has_background(text) && colored_foreground_code(text).len() > 0 ==> {
        ||| result == plain
        ||| result == styled(plain, style_codes(colored_style_code(text), colored_foreground_code(text)))
        ||| result == styled(plain, style_codes(colored_style_code(text), colored_fallback_code(text)))
    }
}

/// Whether `styled_text` is the coloured string that [`State::mark`] hands
/// to colored for `text`: the highlight colour (229, 0, 139) when it changed
/// and white otherwise, the underline style exactly when the instruction
/// affects it, no background.
pub open spec fn mark_source(styled_text: colored::ColoredString, has_changed: bool, is_effected: bool, text: Seq<char>) -> bool {
    &&& colored_text(styled_text) == text
    &&& colored_style_code(styled_text) == underline_code(is_effected)
    &&& !colored_has_background(styled_text)
    &&& colored_foreground_code(styled_text) == (if has_changed { truecolor_code(229, 0, 139) } else { white_code() })
    &&& colored_fallback_code(styled_text) == (if has_changed { nearest_plain_code(229, 0, 139) } else { white_code() })
}

/// Whether `result` is a rendering, by colored, of the coloured string that
/// [`State::mark`] builds for `text`, `has_changed` and `is_effected`.
pub open spec fn marked(result: Seq<char>, has_changed: bool, is_effected: bool, text: Seq<char>) -> bool {
    exists|styled_text: colored::ColoredString|
        #[trigger] mark_source(styled_text, has_changed, is_effected, text) && render_outcome(result, styled_text)
}

/// Calls `colored::Colorize::truecolor` on `text`: the text in the given
/// 24-bit colour, with no style and no background.
#[verifier::external_body]
fn truecolor(text: &str, red: u8, green: u8, blue: u8) -> (r: colored::ColoredString)
    ensures
        colored_text(r) == text@,
        colored_style_code(r) == Seq::<char>::empty(),
        !colored_has_background(r),
        colored_foreground_code(r) == truecolor_code(red, green, blue),
        colored_fallback_code(r) == nearest_plain_code(red, green, blue),
{
    colored::Colorize::truecolor(text, red, green, blue)
}

/// Calls `colored::Colorize::white` on `text`: the text in white, with no
/// style and no background.
#[verifier::external_body]
fn white(text: &str) -> (r: colored::ColoredString)
    ensures
        colored_text(r) == text@,
        colored_style_code(r) == Seq::<char>::empty(),
        !colored_has_background(r),
        colored_foreground_code(r) == white_code(),
        colored_fallback_code(r) == white_code(),
{
    colored::Colorize::white(text)
}

/// Calls `colored::Colorize::underline` on a coloured string: the underline
/// style is added; the plain text and the colours stay.
#[verifier::external_body]
fn underline(text: colored::ColoredString) -> (r: colored::ColoredString)
    ensures
        colored_text(r) == colored_text(text),
        colored_has_background(r) == colored_has_background(text),
        colored_foreground_code(r) == colored_foreground_code(text),
        colored_fallback_code(r) == colored_fallback_code(text),
        colored_style_code(text) == Seq::<char>::empty() ==> colored_style_code(r) == seq!['4'],
{
    colored::Colorize::underline(text)
}

/// Renders a coloured string with its `Display` implementation. When colouring
/// is off (decided by the environment and by whether the output is a
/// terminal) or the string has no colour or style, the result is the plain
/// text; otherwise it is the plain text between a style sequence and the reset
/// sequence. For a string with a foreground colour and no background, the
/// style sequence holds its style parameters and its foreground parameters,
/// those for a 24-bit terminal or the fallback ones as `COLORTERM` decides.
/// Which of these comes out is not stated; nor is the result for a plain text
/// that itself holds the reset sequence, which colored rewrites.
#[verifier::external_body]
fn render(text: colored::ColoredString) -> (r: String)
    ensures
        render_outcome(r@, text),
{
    text.to_string()
}

/// One value column of a trace line: its text, whether the value changed
/// since the previous line, and whether the previous instruction affects it.
pub struct Cell {
    pub text: String,
    pub changed: bool,
    pub affected: bool,
}

/// Whether `fields` holds `field`.
fn has_field(fields: &Vec<Fields>, field: Fields) -> (r: bool)
    ensures
        r == fields@.contains(field),
{
    let mut i: usize = 0;
    while i < fields.len()
        invariant
            i <= fields@.len(),
            forall|j: int| 0 <= j < i ==> fields@[j] != field,
        decreases fields@.len() - i,
    {
        if fields[i] == field {
            assert(fields@[i as int] == field);
            return true;
        }
        i = i + 1;
    }
    false
}

/// `text` padded with spaces to 15 characters.
fn pad15(text: &str) -> (r: String)
    ensures
        r@ == padded(text@),
{
    let mut r = String::from_str(text);
    let mut length = text.unicode_len();
    while length < 15
        invariant
            length == r@.len(),
            length <= 15 || r@ == text@,
            text@.len() < 15 ==> r@ == text@ + Seq::new((length - text@.len()) as nat, |i: int| ' '),
            text@.len() >= 15 ==> r@ == text@,
            text@.len() <= length,
        decreases 15 - length,
    {
        proof {
            reveal_strlit(" ");
        }
        r.append(" ");
        length = length + 1;
        assert(r@ =~= text@ + Seq::new((length - text@.len()) as nat, |i: int| ' '));
    }
    assert(padded(text@) =~= r@);
    r
}

impl View for State {
    type V = StateView;

    closed spec fn view(&self) -> StateView {
        StateView {
            pc: self.pc,
            sp: self.sp,
            cf: self.cf,
            nf: self.nf,
            pf: self.pf,
            hf: self.hf,
            zf: self.zf,
            sf: self.sf,
            a: self.a,
            b: self.b,
            c: self.c,
            d: self.d,
            e: self.e,
            h: self.h,
            l: self.l,
            w: self.w,
            z: self.z,
            ix: self.ix,
            iy: self.iy,
            inst_text: self.inst.0@,
            inst_fields: self.inst.1@,
            stack: self.stack@,
        }
    }
}

impl State {
    /// A snapshot of `registers`, with the disassembly of the instruction at
    /// the program counter and the top of the stack read from `bus`.
    pub fn new<B: Bus>(registers: &Registers, bus: &mut B) -> (r: Self)
        requires
            decodable(old(bus).memory()[registers.pc as int]),
        ensures
            final(bus).memory() == old(bus).memory(),
            final(bus).ports() == old(bus).ports(),
            ({
                let memory = old(bus).memory();
                let pc = registers.pc;
                let (text, fields) = disassembly(
                    memory[pc as int],
                    memory[pc.wrapping_add(1) as int],
                    memory[pc.wrapping_add(2) as int],
                );
                r@ == StateView {
                    pc: registers.pc,
                    sp: registers.sp,
                    cf: bit_of(registers.f, flags::CARRY),
                    nf: bit_of(registers.f, flags::ADD_SUBTRACT),
                    pf: bit_of(registers.f, flags::PARITY_OVERFLOW),
                    hf: bit_of(registers.f, flags::HALF_CARRY),
                    zf: bit_of(registers.f, flags::ZERO),
                    sf: bit_of(registers.f, flags::SIGN),
                    a: registers.a,
                    b: registers.b,
                    c: registers.c,
                    d: registers.d,
                    e: registers.e,
                    h: registers.h,
                    l: registers.l,
                    w: registers.w,
                    z: registers.z,
                    ix: registers.ix,
                    iy: registers.iy,
                    inst_text: text,
                    inst_fields: fields,
                    stack: stack_words(memory, registers.sp),
                }
            }),
    {
        let opcode = bus.read8(registers.pc);
        let next_low = bus.read8(registers.pc.wrapping_add(1));
        let next_high = bus.read8(registers.pc.wrapping_add(2));
        let inst = Self::decode(opcode, next_low, next_high);
        let stack = Self::extract_stack(registers, bus);
        Self {
            pc: registers.pc,
            sp: registers.sp,
            cf: flags::bit_is_set(registers.f, flags::CARRY),
            nf: flags::bit_is_set(registers.f, flags::ADD_SUBTRACT),
            pf: flags::bit_is_set(registers.f, flags::PARITY_OVERFLOW),
            hf: flags::bit_is_set(registers.f, flags::HALF_CARRY),
            zf: flags::bit_is_set(registers.f, flags::ZERO),
            sf: flags::bit_is_set(registers.f, flags::SIGN),
            a: registers.a,
            b: registers.b,
            c: registers.c,
            d: registers.d,
            e: registers.e,
            h: registers.h,
            l: registers.l,
            w: registers.w,
            z: registers.z,
            ix: registers.ix,
            iy: registers.iy,
            inst,
            stack,
        }
    }

    /// The words at the top of the stack: up to five, read from the stack
    /// pointer upwards, whole words below the top of memory only.
    pub fn extract_stack<B: Bus>(registers: &Registers, bus: &mut B) -> (r: Vec<u16>)
        ensures
            r@ == stack_words(old(bus).memory(), registers.sp),
            final(bus).memory() == old(bus).memory(),
            final(bus).ports() == old(bus).ports(),
    {
        let ghost memory = bus.memory();
        let sp = registers.sp;
        let mut index = registers.sp;
        let mut result: Vec<u16> = Vec::new();
        while index <= 0xFFFD
            invariant_except_break
                index <= 0xFFFF,
                result@.len() <= 5,
                index == sp + 2 * result@.len(),
                bus.memory() == memory,
                bus.ports() == old(bus).ports(),
                memory == old(bus).memory(),
                forall|i: int| 0 <= i < result@.len() ==> result@[i] == pair_value(memory[sp + 2 * i + 1], memory[sp + 2 * i]),
            ensures
                result@.len() <= 5,
                result@.len() == 5 || index > 0xFFFD,
                index == sp + 2 * result@.len(),
                bus.memory() == memory,
                bus.ports() == old(bus).ports(),
                memory == old(bus).memory(),
                forall|i: int| 0 <= i < result@.len() ==> result@[i] == pair_value(memory[sp + 2 * i + 1], memory[sp + 2 * i]),
            decreases 0x10000 - index,
        {
            if result.len() == 5 {
                break;
            }
            let low = bus.read8(index);
            let high = bus.read8(index + 1);
            result.push(crate::registers::join(high, low));
            index = index + 2;
        }
        assert(result@.len() == stack_word_count(sp));
        assert(result@ =~= stack_words(memory, sp));
        result
    }

    /// The stack column of a trace line for the stack held by `previous`.
    pub fn stack_to_string(previous: &State) -> (r: String)
        ensures
            r@ == stack_text(previous@.stack),
    {
        let mut result = String::new();
        let mut i: usize = 0;
        while i < previous.stack.len()
            invariant
                i <= previous.stack@.len(),
                result@ == joined_words(previous.stack@.subrange(0, i as int)),
            decreases previous.stack@.len() - i,
        {
            let digits = word_hex(previous.stack[i]);
            if i > 0 {
                result.append(",");
            }
            result.append(digits.as_str());
            proof {
                let prefix = previous.stack@.subrange(0, i as int + 1);
                assert(prefix.drop_last() =~= previous.stack@.subrange(0, i as int));
                reveal_with_fuel(joined_words, 2);
            }
            i = i + 1;
        }
        assert(previous.stack@.subrange(0, previous.stack@.len() as int) =~= previous.stack@);
        if previous.stack.len() == 5 {
            result.append("…");
        }
        result
    }

    /// The column titles of a trace.
    pub fn labels() -> (r: String)
        ensures
            r@ == labels_text(),
    {
        String::from_str("pc   inst            sp    C N P H Z S  a  b  c  d  e  h  l  w  z  ix   iy    stack\r\n")
    }

    /// The rule drawn under (or over) the column titles.
    pub fn underlines() -> (r: String)
        ensures
            r@ == underlines_text(),
    {
        String::from_str("▔▔▔▔ ▔▔▔▔▔▔▔▔▔▔▔▔▔▔▔ ▔▔▔▔  ▔ ▔ ▔ ▔ ▔ ▔  ▔▔ ▔▔ ▔▔ ▔▔ ▔▔ ▔▔ ▔▔ ▔▔ ▔▔ ▔▔▔▔ ▔▔▔▔  ▔▔▔▔▔\r\n")
    }

    /// The head of a trace: the column titles over a rule.
    pub fn header() -> (r: String)
        ensures
            r@ == labels_text() + underlines_text(),
    {
        let mut r = Self::labels();
        let rule = Self::underlines();
        r.append(rule.as_str());
        r
    }

    /// The foot of a trace: a rule over the column titles.
    pub fn footer() -> (r: String)
        ensures
            r@ == underlines_text() + labels_text(),
    {
        let mut r = Self::underlines();
        let titles = Self::labels();
        r.append(titles.as_str());
        r
    }

    /// `text` highlighted when `has_changed` (in the colour 229, 0, 139,
    /// otherwise white) and underlined when `is_effected`, as rendered by
    /// colored: the text itself when colouring is off.
    pub fn mark(has_changed: bool, is_effected: bool, text: &str) -> (r: String)
        ensures
            !has_reset(text@) ==> rendered_as(r@, text@),
            !has_reset(text@) ==> mark_rendering(r@, has_changed, is_effected, text@),
            marked(r@, has_changed, is_effected, text@),
    {
        let mut result = if has_changed {
            truecolor(text, 229, 0, 139)
        } else {
            white(text)
        };
        if is_effected {
            result = underline(result);
        }
        let ghost source = result;
        assert(mark_source(source, has_changed, is_effected, text@));
        let r = render(result);
        assert(mark_source(source, has_changed, is_effected, text@) && render_outcome(r@, source));
        r
    }

    /// The `i`th value column of the trace line that shows this state after
    /// `previous`.
    fn make_cell(&self, previous: &State, i: usize) -> (r: Cell)
        requires
            i < 19,
        ensures
            (r.text@, r.changed, r.affected) == cell(self@, previous@, i as int),
    {
        let affects = &previous.inst.1;
        match i {
            0 => Cell { text: word_hex(previous.pc), changed: false, affected: has_field(affects, Fields::Pc) },
            1 => Cell { text: word_hex(self.sp), changed: self.sp != previous.sp, affected: has_field(affects, Fields::Sp) },
            2 => Cell { text: bit_mark(self.cf), changed: self.cf != previous.cf, affected: has_field(affects, Fields::Cf) },
            3 => Cell { text: bit_mark(self.nf), changed: self.nf != previous.nf, affected: has_field(affects, Fields::Nf) },
            4 => Cell { text: bit_mark(self.pf), changed: self.pf != previous.pf, affected: has_field(affects, Fields::Pf) },
            5 => Cell { text: bit_mark(self.hf), changed: self.hf != previous.hf, affected: has_field(affects, Fields::Hf) },
            6 => Cell { text: bit_mark(self.zf), changed: self.zf != previous.zf, affected: has_field(affects, Fields::Zf) },
            7 => Cell { text: bit_mark(self.sf), changed: self.sf != previous.sf, affected: has_field(affects, Fields::Sf) },
            8 => Cell { text: u8_hex(self.a), changed: self.a != previous.a, affected: has_field(affects, Fields::A) },
            9 => Cell { text: u8_hex(self.b), changed: self.b != previous.b, affected: has_field(affects, Fields::B) },
            10 => Cell { text: u8_hex(self.c), changed: self.c != previous.c, affected: has_field(affects, Fields::C) },
            11 => Cell { text: u8_hex(self.d), changed: self.d != previous.d, affected: has_field(affects, Fields::D) },
            12 => Cell { text: u8_hex(self.e), changed: self.e != previous.e, affected: has_field(affects, Fields::E) },
            13 => Cell { text: u8_hex(self.h), changed: self.h != previous.h, affected: has_field(affects, Fields::H) },
            14 => Cell { text: u8_hex(self.l), changed: self.l != previous.l, affected: has_field(affects, Fields::L) },
            15 => Cell { text: u8_hex(self.w), changed: self.w != previous.w, affected: has_field(affects, Fields::W) },
            16 => Cell { text: u8_hex(self.z), changed: self.z != previous.z, affected: has_field(affects, Fields::Z) },
            17 => Cell { text: word_hex(self.ix), changed: self.ix != previous.ix, affected: has_field(affects, Fields::Ix) },
            _ => Cell { text: word_hex(self.iy), changed: self.iy != previous.iy, affected: has_field(affects, Fields::Iy) },
        }
    }

    /// The 19 value columns of the trace line that shows this state after
    /// `previous`.
    pub fn cells(&self, previous: &State) -> (r: Vec<Cell>)
        ensures
            r@.len() == 19,
            forall|i: int| 0 <= i < 19 ==> (#[trigger] r@[i].text@, r@[i].changed, r@[i].affected) == cell(self@, previous@, i),
    {
        let mut r: Vec<Cell> = Vec::new();
        let mut i: usize = 0;
        while i < 19
            invariant
                i <= 19,
                r@.len() == i,
                forall|j: int| 0 <= j < i ==> (#[trigger] r@[j].text@, r@[j].changed, r@[j].affected) == cell(self@, previous@, j),
            decreases 19 - i,
        {
            r.push(self.make_cell(previous, i));
            i = i + 1;
        }
        r
    }

    /// The trace line made of the rendered value columns `cells` (in the
    /// order of [`State::cells`]), the instruction of `previous` and its stack.
    pub fn render_line(cells: &Vec<String>, previous: &State) -> (r: String)
        requires
            cells@.len() == 19,
        ensures
            r@ == line_text(
                cells@.map_values(|c: String| c@),
                padded(previous@.inst_text),
                stack_text(previous@.stack),
            ),
    {
        let inst = pad15(previous.inst.0.as_str());
        let stack = Self::stack_to_string(previous);
        let mut r = String::new();
        r.append(cells[0].as_str());
        r.append(" ");
        r.append(inst.as_str());
        r.append(" ");
        r.append(cells[1].as_str());
        r.append("  ");
        let mut i: usize = 2;
        while i < 19
            invariant
                2 <= i <= 19,
                cells@.len() == 19,
                r@ == line_prefix(cells@.map_values(|c: String| c@), padded(previous@.inst_text), i as int),
            decreases 19 - i,
        {
            r.append(cells[i].as_str());
            if i == 7 || i == 18 {
                r.append("  ");
            } else {
                r.append(" ");
            }
            i = i + 1;
        }
        r.append(stack.as_str());
        r.append("\r\n");
        r
    }

    /// The trace line that shows this state after `previous`: the address
    /// and disassembly of the previous instruction, the registers and flags
    /// (highlighted where they changed, underlined where the previous
    /// instruction affects them) and the stack that `previous` saw.
    pub fn to_string(&self, previous: &State) -> (r: String)
        ensures
            exists|rendered: Seq<Seq<char>>|
                rendered.len() == 19 && r@ == line_text(
                    rendered,
                    padded(previous@.inst_text),
                    stack_text(previous@.stack),
                ) && forall|i: int|
                    0 <= i < 19 ==> marked(
                        #[trigger] rendered[i],
                        cell(self@, previous@, i).1,
                        cell(self@, previous@, i).2,
                        cell(self@, previous@, i).0,
                    ) && mark_rendering(
                        rendered[i],
                        cell(self@, previous@, i).1,
                        cell(self@, previous@, i).2,
                        cell(self@, previous@, i).0,
                    ),
    {
        let cells = self.cells(previous);
        let mut rendered: Vec<String> = Vec::new();
        let mut i: usize = 0;
        while i < cells.len()
            invariant
                i <= cells@.len(),
                cells@.len() == 19,
                rendered@.len() == i,
                forall|j: int| 0 <= j < 19 ==> (#[trigger] cells@[j].text@, cells@[j].changed, cells@[j].affected) == cell(self@, previous@, j),
                forall|j: int|
                    0 <= j < i ==> marked(
                        #[trigger] rendered@[j]@,
                        cell(self@, previous@, j).1,
                        cell(self@, previous@, j).2,
                        cell(self@, previous@, j).0,
                    ) && mark_rendering(
                        rendered@[j]@,
                        cell(self@, previous@, j).1,
                        cell(self@, previous@, j).2,
                        cell(self@, previous@, j).0,
                    ),
            decreases cells@.len() - i,
        {
            let column = &cells[i];
            proof {
                lemma_cell_text_has_no_reset(self@, previous@, i as int);
                assert((cells@[i as int].text@, cells@[i as int].changed, cells@[i as int].affected) == cell(self@, previous@, i as int));
            }
            rendered.push(Self::mark(column.changed, column.affected, column.text.as_str()));
            i = i + 1;
        }
        let r = Self::render_line(&rendered, previous);
        let ghost texts = rendered@.map_values(|c: String| c@);
        assert(texts.len() == 19);
        assert forall|j: int| 0 <= j < 19 implies marked(
            #[trigger] texts[j],
            cell(self@, previous@, j).1,
            cell(self@, previous@, j).2,
            cell(self@, previous@, j).0,
        ) && mark_rendering(
            texts[j],
            cell(self@, previous@, j).1,
            cell(self@, previous@, j).2,
            cell(self@, previous@, j).0,
        ) by {
            assert(texts[j] == rendered@[j]@);
        }
        r
    }
}

} // verus!
