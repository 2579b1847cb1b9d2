use rc5_minx::decode::{decode_rc5_raw_data, Rc5Key};
use rc5_minx::keymap::{minx_system17_table, minx_system27_table};
use rc5_minx::rc5::{rc5_fields, Rc5Fields};

fn decode(raw: u32) -> Rc5Key<'static> {
    let sc17 = minx_system17_table();
    let sc27 = minx_system27_table();
    decode_rc5_raw_data(raw, &sc17, &sc27)
}

#[test]
fn fields_of_sample_word() {
    // The receiver's sample line carries Raw=0x16D4: address 0x1B, command 0x14.
    assert_eq!(rc5_fields(0x16D4), Rc5Fields { address: 0x1B, command: 0x14, toggle: 0 });
}

#[test]
fn fields_of_extended_word_get_offset() {
    assert_eq!(rc5_fields(0x440), Rc5Fields { address: 0x11, command: 0x40, toggle: 0 });
    assert_eq!(rc5_fields(0xC7B), Rc5Fields { address: 0x11, command: 0x7B, toggle: 1 });
}

#[test]
fn fields_take_each_bit_range() {
    assert_eq!(rc5_fields(0x103F), Rc5Fields { address: 0, command: 0x3F, toggle: 0 });
    assert_eq!(rc5_fields(0x17C0), Rc5Fields { address: 31, command: 0, toggle: 0 });
    assert_eq!(rc5_fields(0x1800), Rc5Fields { address: 0, command: 0, toggle: 1 });
    assert_eq!(rc5_fields(0xFFFF_FFFF), Rc5Fields { address: 31, command: 0x3F, toggle: 1 });
}

#[test]
fn clear_field_bit_is_seventh_command_bit() {
    assert_eq!(rc5_fields(0x3F), Rc5Fields { address: 0, command: 0x7F, toggle: 0 });
    assert_eq!(rc5_fields(0x6D8), Rc5Fields { address: 0x1B, command: 88, toggle: 0 });
    assert_eq!(rc5_fields(0xEFE), Rc5Fields { address: 0x1B, command: 126, toggle: 1 });
    // on address 17 every command is extended, whatever the field bit
    assert_eq!(rc5_fields(0x1440), Rc5Fields { address: 0x11, command: 0x40, toggle: 0 });
}

#[test]
fn sample_word_is_random_key() {
    assert_eq!(decode(0x16D4), Rc5Key::Recognised { name: "Random", toggle: 0 });
}

#[test]
fn system27_keys_decode() {
    assert_eq!(decode(0x16E0), Rc5Key::Recognised { name: "MP3", toggle: 0 });
    assert_eq!(decode(0x1EE1), Rc5Key::Recognised { name: "A1", toggle: 1 });
    assert_eq!(decode(0x16C2), Rc5Key::Recognised { name: "Standby Toggle", toggle: 0 });
    assert_eq!(decode(0x16DF), Rc5Key::Recognised { name: "Bluetooth", toggle: 0 });
    assert_eq!(decode(0x16CD), Rc5Key::Recognised { name: "up", toggle: 0 });
}

#[test]
fn extended_system27_keys_decode() {
    assert_eq!(decode(0x06D8), Rc5Key::Recognised { name: "Memory", toggle: 0 });
    assert_eq!(decode(0x0EE6), Rc5Key::Recognised { name: "Power On", toggle: 1 });
    assert_eq!(decode(0x06E7), Rc5Key::Recognised { name: "Power Off", toggle: 0 });
    assert_eq!(decode(0x06FE), Rc5Key::Recognised { name: "Mute On", toggle: 0 });
    assert_eq!(decode(0x06FF), Rc5Key::Recognised { name: "Mute Off", toggle: 0 });
    // with the field bit set the same six bits are Play/Pause
    assert_eq!(decode(0x16D8), Rc5Key::Recognised { name: "Play/Pause", toggle: 0 });
}

#[test]
fn system17_keys_decode() {
    assert_eq!(decode(0x440), Rc5Key::Recognised { name: "Volume Up", toggle: 0 });
    assert_eq!(decode(0xC41), Rc5Key::Recognised { name: "Volume Down", toggle: 1 });
    assert_eq!(decode(0x47B), Rc5Key::Recognised { name: "Tone//Balance", toggle: 0 });
}

#[test]
fn unknown_address_is_not_recognised() {
    assert_eq!(decode(0x014), Rc5Key::NotRecognised);
    assert_eq!(decode(0x7D4), Rc5Key::NotRecognised);
}

#[test]
fn unknown_command_is_not_recognised() {
    // address 27, command 0 and command 64 are in no table
    assert_eq!(decode(0x16C0), Rc5Key::NotRecognised);
    assert_eq!(decode(0x6C0), Rc5Key::NotRecognised);
    // address 17, command 0x42 is in no table
    assert_eq!(decode(0x442), Rc5Key::NotRecognised);
}

#[test]
fn toggle_flip_keeps_key() {
    for raw in [0x16E0u32, 0x16D4, 0x6D8, 0x440, 0x47B, 0x014] {
        match (decode(raw), decode(raw ^ 0x800)) {
            (Rc5Key::Recognised { name: a, toggle: t }, Rc5Key::Recognised { name: b, toggle: u }) => {
                assert_eq!(a, b);
                assert_eq!(t + u, 1);
            }
            (Rc5Key::NotRecognised, Rc5Key::NotRecognised) => {}
            _ => panic!("toggle changed the outcome for {raw:#x}"),
        }
    }
}

#[test]
fn high_bits_are_ignored() {
    for raw in [0x16D4u32, 0xFFFF_F6E0, 0x1234_5440, 0xABCD_E014, 0x8000_06D8] {
        assert_eq!(decode(raw), decode(raw & 0x1FFF));
    }
}

fn frame_word(address: u32, code: u32, toggle: u32) -> u32 {
    (if code < 64 { 0x1000 } else { 0 }) | (toggle << 11) | (address << 6) | (code & 0x3F)
}

#[test]
fn every_system17_key_is_reached() {
    let sc17 = minx_system17_table();
    for (&code, &name) in sc17.iter() {
        for toggle in 0..2u32 {
            assert_eq!(decode(frame_word(17, code, toggle)), Rc5Key::Recognised { name, toggle });
        }
    }
}

#[test]
fn every_system27_key_is_reached() {
    let sc27 = minx_system27_table();
    for (&code, &name) in sc27.iter() {
        for toggle in 0..2u32 {
            assert_eq!(decode(frame_word(27, code, toggle)), Rc5Key::Recognised { name, toggle });
        }
    }
}

#[test]
fn tables_hold_the_minx_keys() {
    let sc17 = minx_system17_table();
    let sc27 = minx_system27_table();
    assert_eq!(sc17.len(), 8);
    assert_eq!(sc27.len(), 28);
    assert_eq!(sc17.get(&111), Some(&"Internet Radio"));
    assert_eq!(sc17.get(&67), Some(&"Mute Toggle"));
    assert_eq!(sc27.get(&88), Some(&"Memory"));
    assert_eq!(sc27.get(&27), Some(&"Stop/Cancel"));
    assert_eq!(sc27.get(&28), Some(&"Info"));
    assert_eq!(sc27.get(&1), None);
}

#[test]
fn fields_are_bit_ranges_and_rebuild_the_word() {
    for raw in (0..0x4000u32).step_by(7).chain([0xFFFF_FFFF, 0x8000_0ABC]) {
        let f = rc5_fields(raw);
        let bits = raw % 64;
        let field = (raw / 4096) % 2;
        assert_eq!(f.address, (raw / 64) % 32);
        assert_eq!(f.toggle, (raw / 2048) % 2);
        let extended = field == 0 || f.address == 17;
        assert_eq!(f.command, if extended { bits + 64 } else { bits });
        assert_eq!(raw & 0x1FFF, field * 4096 + f.toggle * 2048 + f.address * 64 + bits);
    }
}

#[test]
fn built_word_gives_its_fields_back() {
    for (address, bits, toggle) in [(0u32, 0u32, 0u32), (27, 20, 1), (31, 63, 1), (5, 9, 0)] {
        let f = rc5_fields(4096 + toggle * 2048 + address * 64 + bits);
        assert_eq!(f, Rc5Fields { address, command: bits, toggle });
        let g = rc5_fields(toggle * 2048 + address * 64 + bits);
        assert_eq!(g, Rc5Fields { address, command: bits + 64, toggle });
    }
}
