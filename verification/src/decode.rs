//! Turning a frame word into the key that was pressed, by looking its command
//! up in the key table of its system address.

use crate::keymap::{minx_system17_keys, minx_system27_keys};
use crate::rc5::{
    lemma_command_range, lemma_fields_ignore_high_bits, lemma_fields_of_built_word, rc5_fields,
    spec_address, spec_command, spec_fields, Rc5Fields, EXTENDED_ADDRESS, STANDARD_ADDRESS,
};
use std::collections::HashMap;
use vstd::prelude::*;

verus! {

broadcast use vstd::std_specs::hash::group_hash_axioms;

/// The outcome of decoding a frame word.
#[derive(Debug, Clone, Copy, PartialEq, Eq)]
pub enum Rc5Key<'a> {
    /// The key's name, from its system's table, and the frame's toggle bit.
    Recognised { name: &'a str, toggle: u32 },
    /// The address is neither 17 nor 27, or its table has no such command.
    NotRecognised,
}

/// The key that a frame word stands for, given the tables of systems 17 and 27.
pub open spec fn spec_decode<'a>(
    raw: u32,
    sc17: Map<u32, &'a str>,
    sc27: Map<u32, &'a str>,
) -> Rc5Key<'a> {
    let f = spec_fields(raw);
    if f.address == EXTENDED_ADDRESS && sc17.contains_key(f.command) {
        Rc5Key::Recognised { name: sc17[f.command], toggle: f.toggle }
    } else if f.address == STANDARD_ADDRESS && sc27.contains_key(f.command) {
        Rc5Key::Recognised { name: sc27[f.command], toggle: f.toggle }
    } else {
        Rc5Key::NotRecognised
    }
}

/// Decodes a frame word: splits it into address, command and toggle bit and
/// looks the command up in the table of the address (system 17 or 27).
pub fn decode_rc5_raw_data<'a>(
    rc5_rcd_data: u32,
    rc5_sc17: &HashMap<u32, &'a str>,
    rc5_sc27: &HashMap<u32, &'a str>,
) -> (k: Rc5Key<'a>)
    ensures
        k == spec_decode(rc5_rcd_data, rc5_sc17@, rc5_sc27@),
{
    let f = rc5_fields(rc5_rcd_data);
    if f.address == EXTENDED_ADDRESS {
        if let Some(name) = rc5_sc17.get(&f.command) {
            return Rc5Key::Recognised { name: *name, toggle: f.toggle };
        }
    } else if f.address == STANDARD_ADDRESS {
        if let Some(name) = rc5_sc27.get(&f.command) {
            return Rc5Key::Recognised { name: *name, toggle: f.toggle };
        }
    }
    Rc5Key::NotRecognised
}

/// Bits above the thirteenth change nothing: a word decodes as its low
/// thirteen bits do.
pub proof fn lemma_decode_ignores_high_bits<'a>(
    raw: u32,
    sc17: Map<u32, &'a str>,
    sc27: Map<u32, &'a str>,
)
    ensures
        spec_decode(raw, sc17, sc27) == spec_decode(raw & 0x1FFF, sc17, sc27),
{
    lemma_fields_ignore_high_bits(raw);
}

/// Flipping the toggle bit, as the remote does on each new press of a key,
/// leaves the key that is recognised unchanged and flips the reported toggle.
pub proof fn lemma_toggle_keeps_key<'a>(raw: u32, sc17: Map<u32, &'a str>, sc27: Map<u32, &'a str>)
    ensures
        match (spec_decode(raw, sc17, sc27), spec_decode(raw ^ 0x800, sc17, sc27)) {
            (
                Rc5Key::Recognised { name: n1, toggle: t1 },
                Rc5Key::Recognised { name: n2, toggle: t2 },
            ) => n1 == n2 && t1 + t2 == 1,
            (Rc5Key::NotRecognised, Rc5Key::NotRecognised) => true,
            _ => false,
        },
{
    let flipped = raw ^ 0x800;
    assert(raw & 0x3F == flipped & 0x3F) by (bit_vector)
        requires
            flipped == raw ^ 0x800,
    ;
    assert((raw & 0x7C0) >> 6u32 == (flipped & 0x7C0) >> 6u32) by (bit_vector)
        requires
            flipped == raw ^ 0x800,
    ;
    assert((raw & 0x1000) >> 12u32 == (flipped & 0x1000) >> 12u32) by (bit_vector)
        requires
            flipped == raw ^ 0x800,
    ;
    assert(((raw & 0x800) >> 11u32) + ((flipped & 0x800) >> 11u32) == 1) by (bit_vector)
        requires
            flipped == raw ^ 0x800,
    ;
}

/// A key is recognised only from address 17 or 27, with a command below 128
/// that the table of that address holds.
pub proof fn lemma_recognised_commands<'a>(raw: u32, sc17: Map<u32, &'a str>, sc27: Map<u32, &'a str>)
    ensures
        spec_decode(raw, sc17, sc27) is Recognised ==> spec_command(raw) < 128 && {
            ||| spec_address(raw) == EXTENDED_ADDRESS && sc17.contains_key(spec_command(raw))
            ||| spec_address(raw) == STANDARD_ADDRESS && sc27.contains_key(spec_command(raw))
        },
{
    lemma_command_range(raw);
}

/// The frame word that carries command `code` (below 128) on `address` with
/// toggle bit `toggle`: the six low command bits, the address, the toggle bit,
/// and the field bit set exactly where the command is below 64.
pub open spec fn frame_word(address: u32, code: u32, toggle: u32) -> u32 {
    ((if code < 64 { 4096int } else { 0int }) + toggle * 2048 + address * 64 + code % 64) as u32
}

/// A command below 128 on address 27, or in 64..128 on address 17, is read
/// back from its frame word.
pub proof fn lemma_frame_word_fields(address: u32, code: u32, toggle: u32)
    requires
        address == STANDARD_ADDRESS && code < 128 || address == EXTENDED_ADDRESS && 64 <= code
            < 128,
        toggle < 2,
    ensures
        spec_fields(frame_word(address, code, toggle)) == (Rc5Fields {
            address,
            command: code,
            toggle,
        }),
{
    let field: u32 = if code < 64 {
        1
    } else {
        0
    };
    lemma_fields_of_built_word(field, toggle, address, code % 64);
}

/// Every key of the Minx's tables is recognised, with its own name, from the
/// frame word that carries its code on its address, with either toggle bit.
pub proof fn lemma_every_minx_key_decodes(code: u32, toggle: u32)
    requires
        toggle < 2,
    ensures
        minx_system17_keys().contains_key(code) ==> spec_decode(
            frame_word(EXTENDED_ADDRESS, code, toggle),
            minx_system17_keys(),
            minx_system27_keys(),
        ) == (Rc5Key::Recognised { name: minx_system17_keys()[code], toggle }),
        minx_system27_keys().contains_key(code) ==> spec_decode(
            frame_word(STANDARD_ADDRESS, code, toggle),
            minx_system17_keys(),
            minx_system27_keys(),
        ) == (Rc5Key::Recognised { name: minx_system27_keys()[code], toggle }),
{
    if minx_system17_keys().contains_key(code) {
        assert(64 <= code < 128);
        lemma_frame_word_fields(EXTENDED_ADDRESS, code, toggle);
    }
    if minx_system27_keys().contains_key(code) {
        assert(code < 128);
        lemma_frame_word_fields(STANDARD_ADDRESS, code, toggle);
    }
}

/// Whether the frame word carrying `code` on `address` with toggle bit
/// `toggle` decodes, with the Minx tables, to the key called `name`.
pub open spec fn decodes_to(address: u32, code: u32, toggle: u32, name: &str) -> bool {
    spec_decode(frame_word(address, code, toggle), minx_system17_keys(), minx_system27_keys())
        == (Rc5Key::Recognised { name, toggle })
}

/// Each key of the Minx's system 17 code list is named as the list names it.
pub proof fn lemma_minx_system17_key_names(toggle: u32)
    requires
        toggle < 2,
    ensures
        decodes_to(EXTENDED_ADDRESS, 64, toggle, "Volume Up"),
        decodes_to(EXTENDED_ADDRESS, 65, toggle, "Volume Down"),
        decodes_to(EXTENDED_ADDRESS, 67, toggle, "Mute Toggle"),
        decodes_to(EXTENDED_ADDRESS, 111, toggle, "Internet Radio"),
        decodes_to(EXTENDED_ADDRESS, 114, toggle, "Services"),
        decodes_to(EXTENDED_ADDRESS, 112, toggle, "Media"),
        decodes_to(EXTENDED_ADDRESS, 115, toggle, "Podcasts"),
        decodes_to(EXTENDED_ADDRESS, 123, toggle, "Tone//Balance"),
{
    lemma_every_minx_key_decodes(64, toggle);
    lemma_every_minx_key_decodes(65, toggle);
    lemma_every_minx_key_decodes(67, toggle);
    lemma_every_minx_key_decodes(111, toggle);
    lemma_every_minx_key_decodes(114, toggle);
    lemma_every_minx_key_decodes(112, toggle);
    lemma_every_minx_key_decodes(115, toggle);
    lemma_every_minx_key_decodes(123, toggle);
}

/// Each key of the Minx's system 27 code list is named as the list names it.
pub proof fn lemma_minx_system27_key_names(toggle: u32)
    requires
        toggle < 2,
    ensures
        decodes_to(STANDARD_ADDRESS, 88, toggle, "Memory"),
        decodes_to(STANDARD_ADDRESS, 2, toggle, "Standby Toggle"),
        decodes_to(STANDARD_ADDRESS, 102, toggle, "Power On"),
        decodes_to(STANDARD_ADDRESS, 103, toggle, "Power Off"),
        decodes_to(STANDARD_ADDRESS, 51, toggle, "Brightness"),
        decodes_to(STANDARD_ADDRESS, 9, toggle, "Reply"),
        decodes_to(STANDARD_ADDRESS, 32, toggle, "MP3"),
        decodes_to(STANDARD_ADDRESS, 33, toggle, "A1"),
        decodes_to(STANDARD_ADDRESS, 34, toggle, "A2"),
        decodes_to(STANDARD_ADDRESS, 31, toggle, "Bluetooth"),
        decodes_to(STANDARD_ADDRESS, 35, toggle, "D1"),
        decodes_to(STANDARD_ADDRESS, 36, toggle, "D2"),
        decodes_to(STANDARD_ADDRESS, 24, toggle, "Play/Pause"),
        decodes_to(STANDARD_ADDRESS, 19, toggle, "Down"),
        decodes_to(STANDARD_ADDRESS, 27, toggle, "Stop/Cancel"),
        decodes_to(STANDARD_ADDRESS, 25, toggle, "Skip Forward"),
        decodes_to(STANDARD_ADDRESS, 18, toggle, "Right"),
        decodes_to(STANDARD_ADDRESS, 17, toggle, "Select"),
        decodes_to(STANDARD_ADDRESS, 16, toggle, "Left"),
        decodes_to(STANDARD_ADDRESS, 23, toggle, "Skip Back"),
        decodes_to(STANDARD_ADDRESS, 22, toggle, "Return"),
        decodes_to(STANDARD_ADDRESS, 13, toggle, "up"),
        decodes_to(STANDARD_ADDRESS, 12, toggle, "Home"),
        decodes_to(STANDARD_ADDRESS, 126, toggle, "Mute On"),
        decodes_to(STANDARD_ADDRESS, 127, toggle, "Mute Off"),
        decodes_to(STANDARD_ADDRESS, 28, toggle, "Info"),
        decodes_to(STANDARD_ADDRESS, 21, toggle, "Repeat"),
        decodes_to(STANDARD_ADDRESS, 20, toggle, "Random"),
{
    lemma_every_minx_key_decodes(88, toggle);
    lemma_every_minx_key_decodes(2, toggle);
    lemma_every_minx_key_decodes(102, toggle);
    lemma_every_minx_key_decodes(103, toggle);
    lemma_every_minx_key_decodes(51, toggle);
    lemma_every_minx_key_decodes(9, toggle);
    lemma_every_minx_key_decodes(32, toggle);
    lemma_every_minx_key_decodes(33, toggle);
    lemma_every_minx_key_decodes(34, toggle);
    lemma_every_minx_key_decodes(31, toggle);
    lemma_every_minx_key_decodes(35, toggle);
    lemma_every_minx_key_decodes(36, toggle);
    lemma_every_minx_key_decodes(24, toggle);
    lemma_every_minx_key_decodes(19, toggle);
    lemma_every_minx_key_decodes(27, toggle);
    lemma_every_minx_key_decodes(25, toggle);
    lemma_every_minx_key_decodes(18, toggle);
    lemma_every_minx_key_decodes(17, toggle);
    lemma_every_minx_key_decodes(16, toggle);
    lemma_every_minx_key_decodes(23, toggle);
    lemma_every_minx_key_decodes(22, toggle);
    lemma_every_minx_key_decodes(13, toggle);
    lemma_every_minx_key_decodes(12, toggle);
    lemma_every_minx_key_decodes(126, toggle);
    lemma_every_minx_key_decodes(127, toggle);
    lemma_every_minx_key_decodes(28, toggle);
    lemma_every_minx_key_decodes(21, toggle);
    lemma_every_minx_key_decodes(20, toggle);
}

} // verus!
