# rc5_minx

Reads the lines that an Arduino running the IRremote receiver sketch writes to
a serial port, picks out the RC5 frames (`P=17 A=0x1B C=0x14 Raw=0x16D4 R`) and
names the key of the Cambridge Audio Minx remote that sent each one.

- `src/` is the verified library: `text` (tokens and hexadecimal values),
  `line` (reading one receiver line), `rc5` (the bit layout of a frame word),
  `keymap` (the Minx key tables) and `decode` (frame word to key).
- `app/main.rs` opens the serial port and prints what the library decodes.
