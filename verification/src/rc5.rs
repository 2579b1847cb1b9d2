//! The bit layout of a 13-bit RC5 frame word.
//!
//! The low six bits carry the command, bits 6 to 10 the system address,
//! bit 11 the toggle bit, which flips on every new key press, and bit 12 the
//! field bit. In the extended (RC5X) code the field bit is the inverted
//! seventh command bit: a frame whose field bit is clear carries a command of
//! 64 or more.

use vstd::prelude::*;

verus! {

/// Mask selecting the six command bits.
pub const COMMAND_MASK: u32 = 0x3F;

/// Mask selecting the five address bits.
pub const ADDRESS_MASK: u32 = 0x7C0;

/// Mask selecting the toggle bit.
pub const TOGGLE_MASK: u32 = 0x800;

/// Mask selecting the field bit.
pub const FIELD_MASK: u32 = 0x1000;

/// The system address on which the Minx sends only extended commands
/// (its commands there all lie in 64..128).
pub const EXTENDED_ADDRESS: u32 = 0x11;

/// The Minx's other system address.
pub const STANDARD_ADDRESS: u32 = 0x1B;

/// What the seventh command bit is worth.
pub const EXTENDED_COMMAND_OFFSET: u32 = 0x40;

/// The fields of a frame word.
#[derive(Debug, Clone, Copy, PartialEq, Eq)]
pub struct Rc5Fields {
    pub address: u32,
    pub command: u32,
    pub toggle: u32,
}

/// The system address: bits 6 to 10 of the word.
pub open spec fn spec_address(raw: u32) -> u32 {
    (raw & ADDRESS_MASK) >> 6u32
}

/// The toggle bit: bit 11 of the word.
pub open spec fn spec_toggle(raw: u32) -> u32 {
    (raw & TOGGLE_MASK) >> 11u32
}

/// The field bit: bit 12 of the word.
pub open spec fn spec_field_bit(raw: u32) -> u32 {
    (raw & FIELD_MASK) >> 12u32
}

/// The six low command bits.
pub open spec fn spec_command_bits(raw: u32) -> u32 {
    raw & COMMAND_MASK
}

/// Whether the command's seventh bit is set: the field bit is clear, or the
/// frame comes from the address that carries only extended commands.
pub open spec fn spec_extended(raw: u32) -> bool {
    spec_field_bit(raw) == 0 || spec_address(raw) == EXTENDED_ADDRESS
}

/// The command: the six low bits, plus 0x40 where the seventh bit is set.
pub open spec fn spec_command(raw: u32) -> u32 {
    if spec_extended(raw) {
        (spec_command_bits(raw) + EXTENDED_COMMAND_OFFSET) as u32
    } else {
        spec_command_bits(raw)
    }
}

pub open spec fn spec_fields(raw: u32) -> Rc5Fields {
    Rc5Fields { address: spec_address(raw), command: spec_command(raw), toggle: spec_toggle(raw) }
}

/// Splits a frame word into address, command and toggle bit.
pub fn rc5_fields(raw: u32) -> (f: Rc5Fields)
    ensures
        f == spec_fields(raw),
        f.address < 32,
        f.toggle < 2,
        f.command < 128,
{
    let mut command: u32 = raw & COMMAND_MASK;
    let address: u32 = (raw & ADDRESS_MASK) >> 6u32;
    let toggle: u32 = (raw & TOGGLE_MASK) >> 11u32;
    let field: u32 = (raw & FIELD_MASK) >> 12u32;
    assert(raw & 0x3F <= 0x3F) by (bit_vector);
    assert((raw & 0x7C0) >> 6u32 < 32) by (bit_vector);
    assert((raw & 0x800) >> 11u32 < 2) by (bit_vector);
    if field == 0 || address == EXTENDED_ADDRESS {
        command = command + EXTENDED_COMMAND_OFFSET;
    }
    Rc5Fields { address, command, toggle }
}

/// The fields are the bit ranges of the word: the six low command bits are
/// the word modulo 64, the address is bits 6 to 10, the toggle bit is bit 11
/// and the field bit is bit 12.
pub proof fn lemma_fields_are_bit_ranges(raw: u32)
    ensures
        spec_command_bits(raw) == raw % 64,
        spec_address(raw) == (raw / 64) % 32,
        spec_toggle(raw) == (raw / 2048) % 2,
        spec_field_bit(raw) == (raw / 4096) % 2,
{
    assert(raw & 0x3F == raw % 64) by (bit_vector);
    assert((raw & 0x7C0) >> 6u32 == (raw / 64) % 32) by (bit_vector);
    assert((raw & 0x800) >> 11u32 == (raw / 2048) % 2) by (bit_vector);
    assert((raw & 0x1000) >> 12u32 == (raw / 4096) % 2) by (bit_vector);
}

/// Only the low thirteen bits of a word count: the fields of `raw` are those
/// of `raw & 0x1FFF`.
pub proof fn lemma_fields_ignore_high_bits(raw: u32)
    ensures
        spec_fields(raw) == spec_fields(raw & 0x1FFF),
{
    assert(raw & 0x3F == (raw & 0x1FFF) & 0x3F) by (bit_vector);
    assert((raw & 0x7C0) >> 6u32 == ((raw & 0x1FFF) & 0x7C0) >> 6u32) by (bit_vector);
    assert((raw & 0x800) >> 11u32 == ((raw & 0x1FFF) & 0x800) >> 11u32) by (bit_vector);
    assert((raw & 0x1000) >> 12u32 == ((raw & 0x1FFF) & 0x1000) >> 12u32) by (bit_vector);
}

/// A word built from a field bit, a toggle bit, an address and six command
/// bits gives those four back.
pub proof fn lemma_fields_of_built_word(field: u32, toggle: u32, address: u32, bits: u32)
    requires
        field < 2,
        toggle < 2,
        address < 32,
        bits < 64,
    ensures
        spec_field_bit((field * 4096 + toggle * 2048 + address * 64 + bits) as u32) == field,
        spec_toggle((field * 4096 + toggle * 2048 + address * 64 + bits) as u32) == toggle,
        spec_address((field * 4096 + toggle * 2048 + address * 64 + bits) as u32) == address,
        spec_command_bits((field * 4096 + toggle * 2048 + address * 64 + bits) as u32) == bits,
{
    let w: u32 = (field * 4096 + toggle * 2048 + address * 64 + bits) as u32;
    assert(((w & 0x1000) >> 12u32 == field && (w & 0x800) >> 11u32 == toggle && (w & 0x7C0)
        >> 6u32 == address && w & 0x3F == bits)) by (bit_vector)
        requires
            field < 2,
            toggle < 2,
            address < 32,
            bits < 64,
            w == field * 4096 + toggle * 2048 + address * 64 + bits,
    ;
}

/// The low thirteen bits of any word are built from its field bit, toggle
/// bit, address and six command bits.
pub proof fn lemma_low_bits_from_fields(raw: u32)
    ensures
        raw & 0x1FFF == spec_field_bit(raw) * 4096 + spec_toggle(raw) * 2048 + spec_address(raw)
            * 64 + spec_command_bits(raw),
{
    assert(raw & 0x1FFF == ((raw & 0x1000) >> 12u32) * 4096 + ((raw & 0x800) >> 11u32) * 2048 + ((
    raw & 0x7C0) >> 6u32) * 64 + (raw & 0x3F)) by (bit_vector);
}

/// The command lies in 64..128 where its seventh bit is set (the field bit is
/// clear, or the address is the extended one), and below 64 otherwise.
pub proof fn lemma_command_range(raw: u32)
    ensures
        spec_extended(raw) ==> 64 <= spec_command(raw) < 128,
        !spec_extended(raw) ==> spec_command(raw) < 64,
{
    assert(raw & 0x3F < 64) by (bit_vector);
}

} // verus!
