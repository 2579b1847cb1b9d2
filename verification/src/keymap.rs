//! The key tables of the Cambridge Audio Minx remote: the command codes of its
//! RC5 system 17 (extended commands) and system 27, with the key each stands for.

use std::collections::HashMap;
use vstd::prelude::*;

verus! {

broadcast use vstd::std_specs::hash::group_hash_axioms;

/// The keys that the remote sends on system address 17, by command code.
pub open spec fn minx_system17_keys() -> Map<u32, &'static str> {
    map![
        64u32 => "Volume Up",
        65u32 => "Volume Down",
        67u32 => "Mute Toggle",
        111u32 => "Internet Radio",
        114u32 => "Services",
        112u32 => "Media",
        115u32 => "Podcasts",
        123u32 => "Tone//Balance"
    ]
}

/// The keys that the remote sends on system address 27, by command code.
pub open spec fn minx_system27_keys() -> Map<u32, &'static str> {
    map![
        88u32 => "Memory",
        2u32 => "Standby Toggle",
        102u32 => "Power On",
        103u32 => "Power Off",
        51u32 => "Brightness",
        9u32 => "Reply",
        32u32 => "MP3",
        33u32 => "A1",
        34u32 => "A2",
        31u32 => "Bluetooth",
        35u32 => "D1",
        36u32 => "D2",
        24u32 => "Play/Pause",
        19u32 => "Down",
        27u32 => "Stop/Cancel",
        25u32 => "Skip Forward",
        18u32 => "Right",
        17u32 => "Select",
        16u32 => "Left",
        23u32 => "Skip Back",
        22u32 => "Return",
        13u32 => "up",
        12u32 => "Home",
        126u32 => "Mute On",
        127u32 => "Mute Off",
        28u32 => "Info",
        21u32 => "Repeat",
        20u32 => "Random"
    ]
}

/// The system 17 key table.
pub fn minx_system17_table() -> (m: HashMap<u32, &'static str>)
    ensures
        m@ == minx_system17_keys(),
{
    let mut m: HashMap<u32, &'static str> = HashMap::new();
    m.insert(64, "Volume Up");
    m.insert(65, "Volume Down");
    m.insert(67, "Mute Toggle");
    m.insert(111, "Internet Radio");
    m.insert(114, "Services");
    m.insert(112, "Media");
    m.insert(115, "Podcasts");
    m.insert(123, "Tone//Balance");
    m
}

/// The system 27 key table.
pub fn minx_system27_table() -> (m: HashMap<u32, &'static str>)
    ensures
        m@ == minx_system27_keys(),
{
    let mut m: HashMap<u32, &'static str> = HashMap::new();
    m.insert(88, "Memory");
    m.insert(2, "Standby Toggle");
    m.insert(102, "Power On");
    m.insert(103, "Power Off");
    m.insert(51, "Brightness");
    m.insert(9, "Reply");
    m.insert(32, "MP3");
    m.insert(33, "A1");
    m.insert(34, "A2");
    m.insert(31, "Bluetooth");
    m.insert(35, "D1");
    m.insert(36, "D2");
    m.insert(24, "Play/Pause");
    m.insert(19, "Down");
    m.insert(27, "Stop/Cancel");
    m.insert(25, "Skip Forward");
    m.insert(18, "Right");
    m.insert(17, "Select");
    m.insert(16, "Left");
    m.insert(23, "Skip Back");
    m.insert(22, "Return");
    m.insert(13, "up");
    m.insert(12, "Home");
    m.insert(126, "Mute On");
    m.insert(127, "Mute Off");
    m.insert(28, "Info");
    m.insert(21, "Repeat");
    m.insert(20, "Random");
    m
}

/// The system 17 table holds the eight keys of the Minx code list, each under its code.
pub proof fn lemma_system17_key_list()
    ensures
        minx_system17_keys().contains_key(64u32) && minx_system17_keys()[64u32] == "Volume Up",
        minx_system17_keys().contains_key(65u32) && minx_system17_keys()[65u32] == "Volume Down",
        minx_system17_keys().contains_key(67u32) && minx_system17_keys()[67u32] == "Mute Toggle",
        minx_system17_keys().contains_key(111u32) && minx_system17_keys()[111u32] == "Internet Radio",
        minx_system17_keys().contains_key(114u32) && minx_system17_keys()[114u32] == "Services",
        minx_system17_keys().contains_key(112u32) && minx_system17_keys()[112u32] == "Media",
        minx_system17_keys().contains_key(115u32) && minx_system17_keys()[115u32] == "Podcasts",
        minx_system17_keys().contains_key(123u32) && minx_system17_keys()[123u32] == "Tone//Balance",
{
}

/// The system 27 table holds the twenty-eight keys of the Minx code list, each under its code.
pub proof fn lemma_system27_key_list()
    ensures
        minx_system27_keys().contains_key(88u32) && minx_system27_keys()[88u32] == "Memory",
        minx_system27_keys().contains_key(2u32) && minx_system27_keys()[2u32] == "Standby Toggle",
        minx_system27_keys().contains_key(102u32) && minx_system27_keys()[102u32] == "Power On",
        minx_system27_keys().contains_key(103u32) && minx_system27_keys()[103u32] == "Power Off",
        minx_system27_keys().contains_key(51u32) && minx_system27_keys()[51u32] == "Brightness",
        minx_system27_keys().contains_key(9u32) && minx_system27_keys()[9u32] == "Reply",
        minx_system27_keys().contains_key(32u32) && minx_system27_keys()[32u32] == "MP3",
        minx_system27_keys().contains_key(33u32) && minx_system27_keys()[33u32] == "A1",
        minx_system27_keys().contains_key(34u32) && minx_system27_keys()[34u32] == "A2",
        minx_system27_keys().contains_key(31u32) && minx_system27_keys()[31u32] == "Bluetooth",
        minx_system27_keys().contains_key(35u32) && minx_system27_keys()[35u32] == "D1",
        minx_system27_keys().contains_key(36u32) && minx_system27_keys()[36u32] == "D2",
        minx_system27_keys().contains_key(24u32) && minx_system27_keys()[24u32] == "Play/Pause",
        minx_system27_keys().contains_key(19u32) && minx_system27_keys()[19u32] == "Down",
        minx_system27_keys().contains_key(27u32) && minx_system27_keys()[27u32] == "Stop/Cancel",
        minx_system27_keys().contains_key(25u32) && minx_system27_keys()[25u32] == "Skip Forward",
        minx_system27_keys().contains_key(18u32) && minx_system27_keys()[18u32] == "Right",
        minx_system27_keys().contains_key(17u32) && minx_system27_keys()[17u32] == "Select",
        minx_system27_keys().contains_key(16u32) && minx_system27_keys()[16u32] == "Left",
        minx_system27_keys().contains_key(23u32) && minx_system27_keys()[23u32] == "Skip Back",
        minx_system27_keys().contains_key(22u32) && minx_system27_keys()[22u32] == "Return",
        minx_system27_keys().contains_key(13u32) && minx_system27_keys()[13u32] == "up",
        minx_system27_keys().contains_key(12u32) && minx_system27_keys()[12u32] == "Home",
        minx_system27_keys().contains_key(126u32) && minx_system27_keys()[126u32] == "Mute On",
        minx_system27_keys().contains_key(127u32) && minx_system27_keys()[127u32] == "Mute Off",
        minx_system27_keys().contains_key(28u32) && minx_system27_keys()[28u32] == "Info",
        minx_system27_keys().contains_key(21u32) && minx_system27_keys()[21u32] == "Repeat",
        minx_system27_keys().contains_key(20u32) && minx_system27_keys()[20u32] == "Random",
{
}

} // verus!
