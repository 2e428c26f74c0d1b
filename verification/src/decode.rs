//! Splitting an opcode into the three fields that select an instruction.

use vstd::prelude::*;

verus! {

/// Splits `opcode` into its group (bits 7-6), first operand (bits 5-3) and
/// second operand (bits 2-0).
pub fn into_group_and_operands(opcode: u8) -> (r: (u8, u8, u8))
    ensures
        r.0 == opcode / 64,
        r.1 == (opcode / 8) % 8,
        r.2 == opcode % 8,
{
    let group = opcode >> 6;
    let operand1 = (opcode >> 3) & 7;
    let operand2 = opcode & 7;
    assert(opcode >> 6 == opcode / 64) by (bit_vector);
    assert((opcode >> 3) & 7 == (opcode / 8) % 8) by (bit_vector);
    assert(opcode & 7 == opcode % 8) by (bit_vector);
    (group, operand1, operand2)
}

/// The three fields determine the opcode and stay within their widths:
/// decoding loses nothing.
pub proof fn lemma_fields_rebuild_opcode(opcode: u8)
    ensures
        opcode / 64 < 4,
        (opcode / 8) % 8 < 8,
        opcode % 8 < 8,
        opcode == (opcode / 64) * 64 + ((opcode / 8) % 8) * 8 + opcode % 8,
{
}

} // verus!
