//! Reading one line of the IR receiver's output.
//!
//! The receiver prints one line per frame, such as `P=17 A=0x1B C=0x14 Raw=0x16D4 R`:
//! the protocol, then the address, the command and the raw frame word as
//! `NAME=0xVALUE` tokens. Only lines whose first four bytes are `P=17` (RC5)
//! are read; an empty line, or one with other first bytes, is passed over.

use crate::text::{
    chars_of, hex_digit, hex_text, join_with_spaces, lemma_hex_text_value,
    lemma_printable_ascii_is_not_white_space, lemma_token_reads_hex_text,
    lemma_words_of_joined_tokens, lower_hex_digits, parse_token_value, split_words, token_value,
    upper_hex_digits, words, is_white_space,
};
use vstd::prelude::*;
use vstd::utf8::{
    encode_scalar, encode_utf8, encode_utf8_valid_utf8, is_char_boundary,
    is_char_boundary_iff_not_is_continuation_byte, is_continuation_byte,
};

verus! {

/// The values that an RC5 line carries.
#[derive(Debug, Clone, Copy, PartialEq, Eq)]
pub struct FrameLine {
    pub address: u32,
    pub command: u32,
    pub raw: u32,
}

/// Why an RC5 line cannot be read; the program stops on any of them.
#[derive(Debug, Clone, Copy, PartialEq, Eq)]
pub enum LineError {
    /// The line is not empty, but its first four bytes are not a whole number
    /// of characters (it is shorter than four bytes, or byte 4 falls inside a
    /// character).
    CutHeader,
    /// The line has too few tokens for the value that was wanted next.
    MissingToken,
    /// A token that should carry a value has no `=` or no hexadecimal `u32` after it.
    BadToken,
}

/// The bytes `P=17` that open an RC5 line.
pub open spec fn rc5_header() -> Seq<u8> {
    seq![0x50u8, 0x3Du8, 0x31u8, 0x37u8]
}

/// The values read from the tokens of an RC5 line: the second, third and
/// fourth tokens, in that order, each of which must be there and carry a value.
pub open spec fn spec_frame_tokens(t: Seq<Seq<char>>) -> Result<FrameLine, LineError> {
    if t.len() < 2 {
        Err(LineError::MissingToken)
    } else {
        match token_value(t[1]) {
            None => Err(LineError::BadToken),
            Some(address) => if t.len() < 3 {
                Err(LineError::MissingToken)
            } else {
                match token_value(t[2]) {
                    None => Err(LineError::BadToken),
                    Some(command) => if t.len() < 4 {
                        Err(LineError::MissingToken)
                    } else {
                        match token_value(t[3]) {
                            None => Err(LineError::BadToken),
                            Some(raw) => Ok(FrameLine { address, command, raw }),
                        }
                    },
                }
            },
        }
    }
}

/// What a line gives: `Ok(None)` where it is passed over, `Ok(Some(..))` for
/// an RC5 line that can be read, an error otherwise.
pub open spec fn spec_read_frame_line(line: Seq<char>) -> Result<Option<FrameLine>, LineError> {
    let bytes = encode_utf8(line);
    if line.len() == 0 {
        Ok(None)
    } else if bytes.len() < 4 || !is_char_boundary(bytes, 4) {
        Err(LineError::CutHeader)
    } else if bytes.take(4) != rc5_header() {
        Ok(None)
    } else {
        match spec_frame_tokens(words(line)) {
            Ok(f) => Ok(Some(f)),
            Err(e) => Err(e),
        }
    }
}

/// Reads one line of the receiver's output.
pub fn read_frame_line(line: &str) -> (r: Result<Option<FrameLine>, LineError>)
    ensures
        r == spec_read_frame_line(line@),
{
    if line.is_empty() {
        return Ok(None);
    }
    let bytes = line.as_bytes();
    if bytes.len() < 4 || !line.is_char_boundary(4) {
        return Err(LineError::CutHeader);
    }
    if !(bytes[0] == 0x50u8 && bytes[1] == 0x3Du8 && bytes[2] == 0x31u8 && bytes[3] == 0x37u8) {
        assert(bytes@.take(4) != rc5_header()) by {
            if bytes@.take(4) == rc5_header() {
                assert(bytes@[0] == bytes@.take(4)[0]);
                assert(bytes@[1] == bytes@.take(4)[1]);
                assert(bytes@[2] == bytes@.take(4)[2]);
                assert(bytes@[3] == bytes@.take(4)[3]);
            }
        }
        return Ok(None);
    }
    assert(bytes@.take(4) =~= rc5_header());
    let chars = chars_of(line);
    let tokens = split_words(chars.as_slice());
    if tokens.len() < 2 {
        return Err(LineError::MissingToken);
    }
    let address = match parse_token_value(tokens[1].as_slice()) {
        Some(v) => v,
        None => return Err(LineError::BadToken),
    };
    if tokens.len() < 3 {
        return Err(LineError::MissingToken);
    }
    let command = match parse_token_value(tokens[2].as_slice()) {
        Some(v) => v,
        None => return Err(LineError::BadToken),
    };
    if tokens.len() < 4 {
        return Err(LineError::MissingToken);
    }
    let raw = match parse_token_value(tokens[3].as_slice()) {
        Some(v) => v,
        None => return Err(LineError::BadToken),
    };
    Ok(Some(FrameLine { address, command, raw }))
}

/// Only RC5 lines are read: a line is read as a frame only where its first
/// four bytes are exactly `P`, `=`, `1`, `7` (0x50 0x3D 0x31 0x37), and a
/// non-empty line whose first four bytes are whole characters other than
/// those is passed over.
pub proof fn lemma_only_p17_lines_are_read(line: Seq<char>)
    ensures
        spec_read_frame_line(line) matches Ok(Some(_)) ==> {
            let b = encode_utf8(line);
            &&& b.len() >= 4
            &&& b[0] == 0x50u8
            &&& b[1] == 0x3Du8
            &&& b[2] == 0x31u8
            &&& b[3] == 0x37u8
        },
        ({
            let b = encode_utf8(line);
            line.len() > 0 && b.len() >= 4 && is_char_boundary(b, 4) && !(b[0] == 0x50u8 && b[1]
                == 0x3Du8 && b[2] == 0x31u8 && b[3] == 0x37u8)
        }) ==> spec_read_frame_line(line) == Ok::<Option<FrameLine>, LineError>(None),
{
    let b = encode_utf8(line);
    if b.len() >= 4 {
        if b.take(4) == rc5_header() {
            assert(b[0] == b.take(4)[0] && b[1] == b.take(4)[1] && b[2] == b.take(4)[2] && b[3]
                == b.take(4)[3]);
        }
        if b[0] == 0x50u8 && b[1] == 0x3Du8 && b[2] == 0x31u8 && b[3] == 0x37u8 {
            assert(b.take(4) =~= rc5_header());
        }
    }
}

/// The first bytes of the UTF-8 encoding of a text that opens with ASCII
/// characters are those characters' codes.
proof fn lemma_encode_ascii_prefix(s: Seq<char>, k: int)
    requires
        0 <= k <= s.len(),
        forall|j: int| 0 <= j < k ==> ((#[trigger] s[j]) as u32) < 0x80,
    ensures
        encode_utf8(s).len() >= k,
        forall|j: int| 0 <= j < k ==> #[trigger] encode_utf8(s)[j] == s[j] as u32 as u8,
    decreases k,
{
    if k > 0 {
        let u = s[0] as u32;
        assert(u < 0x80);
        assert(u < 0x80 ==> u & 0x7F == u) by (bit_vector);
        assert(encode_scalar(u) =~= seq![u as u8]);
        let t = s.drop_first();
        assert forall|j: int| 0 <= j < k - 1 implies ((#[trigger] t[j]) as u32) < 0x80 by {
            assert(t[j] == s[j + 1]);
        }
        lemma_encode_ascii_prefix(t, k - 1);
        assert(encode_utf8(s) == seq![u as u8] + encode_utf8(t));
        assert forall|j: int| 0 <= j < k implies #[trigger] encode_utf8(s)[j] == s[j] as u32 as u8 by {
            if j > 0 {
                assert(encode_utf8(s)[j] == encode_utf8(t)[j - 1]);
                assert(t[j - 1] == s[j]);
            }
        }
    }
}

/// A `NAME=0x` token followed by the hexadecimal digits of `value`, written
/// with the digits of `alphabet`.
pub open spec fn hex_token(name: Seq<char>, value: u32, alphabet: Seq<char>) -> Seq<char> {
    name + seq!['='] + seq!['0', 'x'] + hex_text(value as nat, alphabet)
}

proof fn lemma_hex_token_is_a_word(name: Seq<char>, value: u32, alphabet: Seq<char>)
    requires
        forall|j: int| 0 <= j < name.len() ==> !is_white_space(#[trigger] name[j]),
        alphabet == upper_hex_digits() || alphabet == lower_hex_digits(),
    ensures
        hex_token(name, value, alphabet).len() > 0,
        forall|j: int|
            0 <= j < hex_token(name, value, alphabet).len() ==> !is_white_space(
                #[trigger] hex_token(name, value, alphabet)[j],
            ),
{
    let t = hex_token(name, value, alphabet);
    let h = hex_text(value as nat, alphabet);
    lemma_hex_text_value(value as nat, alphabet);
    let n = name.len() as int;
    assert forall|j: int| 0 <= j < t.len() implies !is_white_space(#[trigger] t[j]) by {
        if j < n {
            assert(t[j] == name[j]);
        } else if j == n {
            assert(t[j] == '=');
            lemma_printable_ascii_is_not_white_space('=');
        } else if j == n + 1 {
            assert(t[j] == '0');
            lemma_printable_ascii_is_not_white_space('0');
        } else if j == n + 2 {
            assert(t[j] == 'x');
            lemma_printable_ascii_is_not_white_space('x');
        } else {
            assert(t[j] == h[j - n - 3]);
            assert(hex_digit(h[j - n - 3]) is Some);
            lemma_printable_ascii_is_not_white_space(t[j]);
        }
    }
}

/// An RC5 line as the receiver prints it, `P=17` followed by an address, a
/// command and a raw-word token (any names without `=` or whitespace, values
/// in hexadecimal with either case of digits), separated by single spaces,
/// is read as exactly those three values.
pub proof fn lemma_rc5_line_is_read(
    names: Seq<Seq<char>>,
    address: u32,
    command: u32,
    raw: u32,
    alphabet: Seq<char>,
)
    requires
        names.len() == 3,
        forall|i: int| 0 <= i < 3 ==> !(#[trigger] names[i]).contains('='),
        forall|i: int, j: int|
            0 <= i < 3 && 0 <= j < names[i].len() ==> !is_white_space(#[trigger] names[i][j]),
        alphabet == upper_hex_digits() || alphabet == lower_hex_digits(),
    ensures
        spec_read_frame_line(
            join_with_spaces(
                seq![
                    seq!['P', '=', '1', '7'],
                    hex_token(names[0], address, alphabet),
                    hex_token(names[1], command, alphabet),
                    hex_token(names[2], raw, alphabet),
                ],
            ),
        ) == Ok::<Option<FrameLine>, LineError>(Some(FrameLine { address, command, raw })),
{
    let h = seq!['P', '=', '1', '7'];
    let n0 = names[0];
    let n1 = names[1];
    let n2 = names[2];
    let t1 = hex_token(n0, address, alphabet);
    let t2 = hex_token(n1, command, alphabet);
    let t3 = hex_token(n2, raw, alphabet);
    let ts = seq![h, t1, t2, t3];
    // the tokens are the words of the line
    assert forall|j: int| 0 <= j < n0.len() implies !is_white_space(#[trigger] n0[j]) by {
        assert(names[0][j] == n0[j]);
    }
    assert forall|j: int| 0 <= j < n1.len() implies !is_white_space(#[trigger] n1[j]) by {
        assert(names[1][j] == n1[j]);
    }
    assert forall|j: int| 0 <= j < n2.len() implies !is_white_space(#[trigger] n2[j]) by {
        assert(names[2][j] == n2[j]);
    }
    lemma_hex_token_is_a_word(n0, address, alphabet);
    lemma_hex_token_is_a_word(n1, command, alphabet);
    lemma_hex_token_is_a_word(n2, raw, alphabet);
    assert forall|j: int| 0 <= j < h.len() implies !is_white_space(#[trigger] h[j]) by {
        lemma_printable_ascii_is_not_white_space(h[j]);
    }
    assert(ts[0] == h && ts[1] == t1 && ts[2] == t2 && ts[3] == t3);
    lemma_words_of_joined_tokens(ts);
    let line = join_with_spaces(ts);
    assert(words(line) == ts);
    // each token carries its value
    lemma_token_reads_hex_text(n0, address, alphabet);
    lemma_token_reads_hex_text(n1, command, alphabet);
    lemma_token_reads_hex_text(n2, raw, alphabet);
    assert(t1 == n0 + seq!['='] + seq!['0', 'x'] + hex_text(address as nat, alphabet));
    // the line opens with the bytes of `P=17 `
    lemma_join_four(h, t1, t2, t3);
    lemma_p17_header(line);
}

proof fn lemma_join_four(a: Seq<char>, b: Seq<char>, c: Seq<char>, d: Seq<char>)
    ensures
        join_with_spaces(seq![a, b, c, d]) == a + seq![' '] + b + seq![' '] + c + seq![' '] + d,
{
    let ts = seq![a, b, c, d];
    assert(ts.drop_last() =~= seq![a, b, c]);
    assert(seq![a, b, c].drop_last() =~= seq![a, b]);
    assert(seq![a, b].drop_last() =~= seq![a]);
    assert(join_with_spaces(seq![a]) == a);
    assert(join_with_spaces(seq![a, b]) == a + seq![' '] + b);
    assert(join_with_spaces(seq![a, b, c]) == a + seq![' '] + b + seq![' '] + c);
}

proof fn lemma_p17_header(line: Seq<char>)
    requires
        line.len() >= 5,
        line[0] == 'P',
        line[1] == '=',
        line[2] == '1',
        line[3] == '7',
        line[4] == ' ',
    ensures
        encode_utf8(line).len() >= 4,
        is_char_boundary(encode_utf8(line), 4),
        encode_utf8(line).take(4) == rc5_header(),
{
    lemma_encode_ascii_prefix(line, 5);
    let b = encode_utf8(line);
    assert(b[0] == 0x50u8 && b[1] == 0x3Du8 && b[2] == 0x31u8 && b[3] == 0x37u8 && b[4] == 0x20u8);
    assert(b.take(4) =~= rc5_header());
    encode_utf8_valid_utf8(line);
    is_char_boundary_iff_not_is_continuation_byte(b, 4);
    assert(!is_continuation_byte(0x20u8));
}

} // verus!
