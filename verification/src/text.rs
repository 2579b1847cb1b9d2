//! Reading the text that the IR receiver writes: splitting a line into
//! whitespace-separated tokens and reading the hexadecimal value of a
//! `NAME=0xVALUE` token.
//!
//! The definitions follow what `str::split_whitespace`, `str::split("=")`,
//! `str::trim_start_matches("0x")` and `u32::from_str_radix(.., 16)` do, as
//! their documentation describes them.

use vstd::prelude::*;

verus! {

broadcast use vstd::string::axiom_spec_iter;

// ---------------------------------------------------------------------------
// Characters
// ---------------------------------------------------------------------------

/// The characters with the Unicode `White_Space` property, which is what
/// `char::is_whitespace` tests.
pub open spec fn is_white_space(c: char) -> bool {
    let u = c as u32;
    ||| 0x09 <= u <= 0x0D
    ||| u == 0x20
    ||| u == 0x85
    ||| u == 0xA0
    ||| u == 0x1680
    ||| 0x2000 <= u <= 0x200A
    ||| u == 0x2028
    ||| u == 0x2029
    ||| u == 0x202F
    ||| u == 0x205F
    ||| u == 0x3000
}

/// Whether `c` is a whitespace character.
pub fn white_space(c: char) -> (b: bool)
    ensures
        b == is_white_space(c),
{
    let u: u32 = c as u32;
    (0x09 <= u && u <= 0x0D) || u == 0x20 || u == 0x85 || u == 0xA0 || u == 0x1680 || (0x2000
        <= u && u <= 0x200A) || u == 0x2028 || u == 0x2029 || u == 0x202F || u == 0x205F || u
        == 0x3000
}

/// The value of a hexadecimal digit (either case), or `None` for any other character.
pub open spec fn hex_digit(c: char) -> Option<nat> {
    if '0' <= c <= '9' {
        Some((c as u32 - '0' as u32) as nat)
    } else if 'a' <= c <= 'f' {
        Some((c as u32 - 'a' as u32 + 10) as nat)
    } else if 'A' <= c <= 'F' {
        Some((c as u32 - 'A' as u32 + 10) as nat)
    } else {
        None
    }
}

/// The value of a hexadecimal digit, or `None` for any other character.
pub fn hex_digit_value(c: char) -> (d: Option<u32>)
    ensures
        match d {
            Some(v) => hex_digit(c) == Some(v as nat) && v < 16,
            None => hex_digit(c) is None,
        },
{
    if '0' <= c && c <= '9' {
        Some(c as u32 - '0' as u32)
    } else if 'a' <= c && c <= 'f' {
        Some(c as u32 - 'a' as u32 + 10)
    } else if 'A' <= c && c <= 'F' {
        Some(c as u32 - 'A' as u32 + 10)
    } else {
        None
    }
}

// ---------------------------------------------------------------------------
// Sequences of characters
// ---------------------------------------------------------------------------

/// The characters of a string, in order.
pub fn chars_of(s: &str) -> (v: Vec<char>)
    ensures
        v@ == s@,
{
    let mut v: Vec<char> = Vec::new();
    for c in it: s.chars()
        invariant
            v@ == it.seq().take(it.index() as int),
    {
        v.push(c);
    }
    v
}

/// A copy of `s[from..to]`.
pub fn sub_chars(s: &[char], from: usize, to: usize) -> (v: Vec<char>)
    requires
        from <= to <= s@.len(),
    ensures
        v@ == s@.subrange(from as int, to as int),
{
    let mut v: Vec<char> = Vec::new();
    let mut i: usize = from;
    while i < to
        invariant
            from <= i <= to <= s@.len(),
            v@ == s@.subrange(from as int, i as int),
        decreases to - i,
    {
        v.push(s[i]);
        i = i + 1;
    }
    v
}

// ---------------------------------------------------------------------------
// Splitting on whitespace
// ---------------------------------------------------------------------------

/// The maximal runs of non-whitespace characters of `s`, in order.
///
/// Read from the right: a whitespace character adds nothing; a character that
/// follows a non-whitespace character extends the last word; any other
/// character starts a new word.
pub open spec fn words(s: Seq<char>) -> Seq<Seq<char>>
    decreases s.len(),
{
    if s.len() == 0 {
        seq![]
    } else {
        let w = words(s.drop_last());
        let c = s.last();
        if is_white_space(c) {
            w
        } else if s.len() > 1 && !is_white_space(s[s.len() - 2]) {
            w.update(w.len() - 1, w.last().push(c))
        } else {
            w.push(seq![c])
        }
    }
}

/// Splits `s` into its whitespace-separated words.
pub fn split_words(s: &[char]) -> (w: Vec<Vec<char>>)
    ensures
        w@.len() == words(s@).len(),
        forall|j: int| 0 <= j < w@.len() ==> (#[trigger] w@[j])@ == words(s@)[j],
{
    let mut out: Vec<Vec<char>> = Vec::new();
    let mut i: usize = 0;
    while i < s.len()
        invariant
            0 <= i <= s@.len(),
            out@.len() == words(s@.take(i as int)).len(),
            forall|j: int| 0 <= j < out@.len() ==> (#[trigger] out@[j])@ == words(s@.take(i as int))[j],
            i > 0 && !is_white_space(s@[i - 1]) ==> out@.len() > 0,
        decreases s@.len() - i,
    {
        let c = s[i];
        let ghost before = s@.take(i as int);
        let ghost after = s@.take(i + 1);
        assert(after.drop_last() =~= before);
        assert(after.last() == c);
        if white_space(c) {
        } else if i > 0 && !white_space(s[i - 1]) {
            assert(after[after.len() - 2] == s@[i - 1]);
            let ghost prev = out@;
            let mut last = out.pop().unwrap();
            last.push(c);
            out.push(last);
            assert forall|j: int| 0 <= j < out@.len() implies (#[trigger] out@[j])@ == words(after)[j] by {
                if j < out@.len() - 1 {
                    assert(out@[j] == prev[j]);
                }
            }
        } else {
            assert(i > 0 ==> after[after.len() - 2] == s@[i - 1]);
            let ghost prev = out@;
            let mut fresh: Vec<char> = Vec::new();
            fresh.push(c);
            out.push(fresh);
            assert forall|j: int| 0 <= j < out@.len() implies (#[trigger] out@[j])@ == words(after)[j] by {
                if j < out@.len() - 1 {
                    assert(out@[j] == prev[j]);
                } else {
                    assert(out@[j]@ =~= seq![c]);
                }
            }
        }
        i = i + 1;
    }
    assert(s@.take(s@.len() as int) =~= s@);
    out
}

// ---------------------------------------------------------------------------
// The value of a `NAME=VALUE` token
// ---------------------------------------------------------------------------

/// The index of the first `c` in `s`, or the length of `s` where there is none.
pub open spec fn index_or_len(s: Seq<char>, c: char) -> int
    decreases s.len(),
{
    if s.len() == 0 {
        0
    } else if s[0] == c {
        0
    } else {
        1 + index_or_len(s.drop_first(), c)
    }
}

/// The text between the first `=` of a token and the next `=` (or the end),
/// which is the second piece of `token.split("=")`; `None` where the token has
/// no `=`.
pub open spec fn value_text(t: Seq<char>) -> Option<Seq<char>> {
    let a = index_or_len(t, '=');
    if a == t.len() {
        None
    } else {
        let rest = t.skip(a + 1);
        Some(rest.take(index_or_len(rest, '=')))
    }
}

/// `s` with every leading `0x` removed, repeatedly.
pub open spec fn strip_hex_prefix(s: Seq<char>) -> Seq<char>
    decreases s.len(),
{
    if s.len() >= 2 && s[0] == '0' && s[1] == 'x' {
        strip_hex_prefix(s.skip(2))
    } else {
        s
    }
}

/// Whether every character of `s` is a hexadecimal digit.
pub open spec fn all_hex(s: Seq<char>) -> bool {
    forall|i: int| 0 <= i < s.len() ==> (#[trigger] hex_digit(s[i])) is Some
}

/// The number that the hexadecimal digits `s` write, most significant first.
pub open spec fn hex_value(s: Seq<char>) -> nat
    decreases s.len(),
{
    if s.len() == 0 {
        0
    } else {
        hex_value(s.drop_last()) * 16 + hex_digit(s.last()).unwrap_or(0)
    }
}

/// What `u32::from_str_radix(s, 16)` gives: an optional `+`, then one or more
/// hexadecimal digits whose value fits in a `u32`; anything else is an error.
pub open spec fn parse_hex(s: Seq<char>) -> Option<u32> {
    let digits = if s.len() > 0 && s[0] == '+' {
        s.drop_first()
    } else {
        s
    };
    if digits.len() == 0 || !all_hex(digits) || hex_value(digits) > u32::MAX {
        None
    } else {
        Some(hex_value(digits) as u32)
    }
}

/// The value of a `NAME=0xVALUE` token, or `None` where reading it fails.
pub open spec fn token_value(t: Seq<char>) -> Option<u32> {
    match value_text(t) {
        None => None,
        Some(v) => parse_hex(strip_hex_prefix(v)),
    }
}

/// A prefix of hexadecimal digits is worth no more than the whole.
pub proof fn lemma_hex_value_prefix(s: Seq<char>, k: int)
    requires
        0 <= k <= s.len(),
    ensures
        hex_value(s.take(k)) <= hex_value(s),
    decreases s.len(),
{
    if k < s.len() {
        assert(s.drop_last().take(k) =~= s.take(k));
        lemma_hex_value_prefix(s.drop_last(), k);
    } else {
        assert(s.take(k) =~= s);
    }
}

proof fn lemma_index_or_len(s: Seq<char>, c: char, i: int)
    requires
        0 <= i <= s.len(),
        forall|j: int| 0 <= j < i ==> s[j] != c,
        i == s.len() || s[i] == c,
    ensures
        index_or_len(s, c) == i,
    decreases i,
{
    if i > 0 {
        lemma_index_or_len(s.drop_first(), c, i - 1);
    }
}

/// The index of the first `c` in `s[from..]`, or the length of `s`.
pub fn find_char(s: &[char], from: usize, c: char) -> (r: usize)
    requires
        from <= s@.len(),
    ensures
        from <= r <= s@.len(),
        r - from == index_or_len(s@.skip(from as int), c),
{
    let mut i: usize = from;
    while i < s.len() && s[i] != c
        invariant
            from <= i <= s@.len(),
            forall|j: int| from <= j < i ==> s@[j] != c,
        decreases s@.len() - i,
    {
        i = i + 1;
    }
    proof {
        lemma_index_or_len(s@.skip(from as int), c, i - from);
    }
    i
}

/// Reads hexadecimal digits as `u32::from_str_radix(s, 16)` does.
pub fn parse_hex_u32(s: &[char]) -> (r: Option<u32>)
    ensures
        r == parse_hex(s@),
{
    let digits: Vec<char> = if s.len() > 0 && s[0] == '+' {
        sub_chars(s, 1, s.len())
    } else {
        sub_chars(s, 0, s.len())
    };
    assert(digits@ =~= (if s@.len() > 0 && s@[0] == '+' {
        s@.drop_first()
    } else {
        s@
    }));
    if digits.len() == 0 {
        return None;
    }
    let mut acc: u64 = 0;
    let mut i: usize = 0;
    while i < digits.len()
        invariant
            0 <= i <= digits@.len(),
            digits@ == (if s@.len() > 0 && s@[0] == '+' {
                s@.drop_first()
            } else {
                s@
            }),
            all_hex(digits@.take(i as int)),
            acc == hex_value(digits@.take(i as int)),
            acc <= u32::MAX,
        decreases digits@.len() - i,
    {
        let ghost before = digits@.take(i as int);
        let ghost after = digits@.take(i + 1);
        assert(after.drop_last() =~= before);
        assert(after.last() == digits@[i as int]);
        match hex_digit_value(digits[i]) {
            None => {
                assert(hex_digit(digits@[i as int]) is None);
                assert(!all_hex(digits@));
                return None;
            },
            Some(d) => {
                acc = acc * 16 + d as u64;
                assert(acc == hex_value(after));
                assert(all_hex(after)) by {
                    assert forall|j: int| 0 <= j < after.len() implies (#[trigger] hex_digit(after[j])) is Some by {
                        if j < i {
                            assert(after[j] == before[j]);
                        }
                    }
                }
                if acc > 0xFFFF_FFFF {
                    proof {
                        lemma_hex_value_prefix(digits@, i + 1);
                    }
                    return None;
                }
            },
        }
        i = i + 1;
    }
    assert(digits@.take(digits@.len() as int) =~= digits@);
    Some(acc as u32)
}

/// The value of a `NAME=0xVALUE` token, or `None` where the token has no `=`
/// or what follows it is no hexadecimal `u32`.
pub fn parse_token_value(token: &[char]) -> (r: Option<u32>)
    ensures
        r == token_value(token@),
{
    let n = token.len();
    let a = find_char(token, 0, '=');
    assert(token@.skip(0) =~= token@);
    if a == n {
        return None;
    }
    let b = find_char(token, a + 1, '=');
    let ghost rest = token@.skip(a + 1);
    assert(token@.subrange(a + 1, b as int) =~= rest.take(index_or_len(rest, '=')));
    let mut start: usize = a + 1;
    while b - start >= 2 && token[start] == '0' && token[start + 1] == 'x'
        invariant
            a + 1 <= start <= b <= n == token@.len(),
            strip_hex_prefix(token@.subrange(a + 1, b as int)) == strip_hex_prefix(
                token@.subrange(start as int, b as int),
            ),
        decreases b - start,
    {
        assert(token@.subrange(start as int, b as int).skip(2) =~= token@.subrange(
            start + 2,
            b as int,
        ));
        start = start + 2;
    }
    let v = sub_chars(token, start, b);
    parse_hex_u32(v.as_slice())
}

/// Every word is a non-empty run of non-whitespace characters, and a text that
/// ends in a non-whitespace character has at least one word.
pub proof fn lemma_words_are_runs(s: Seq<char>)
    ensures
        forall|i: int|
            0 <= i < words(s).len() ==> (#[trigger] words(s)[i]).len() > 0 && forall|j: int|
                0 <= j < words(s)[i].len() ==> !is_white_space(#[trigger] words(s)[i][j]),
        s.len() > 0 && !is_white_space(s.last()) ==> words(s).len() > 0,
    decreases s.len(),
{
    if s.len() > 0 {
        let p = s.drop_last();
        lemma_words_are_runs(p);
        let c = s.last();
        if !is_white_space(c) && s.len() > 1 && !is_white_space(s[s.len() - 2]) {
            assert(p.last() == s[s.len() - 2]);
            let w = words(p);
            assert forall|i: int| 0 <= i < words(s).len() implies (#[trigger] words(s)[i]).len()
                > 0 && forall|j: int|
                0 <= j < words(s)[i].len() ==> !is_white_space(#[trigger] words(s)[i][j]) by {
                if i == w.len() - 1 {
                    assert forall|j: int| 0 <= j < words(s)[i].len() implies !is_white_space(
                        #[trigger] words(s)[i][j],
                    ) by {
                        if j < w[i].len() {
                            assert(words(s)[i][j] == w[i][j]);
                        }
                    }
                }
            }
        }
    }
}

/// The name before the `=` of a token counts for nothing: `NAME=VALUE`, where
/// neither part holds a `=`, has the value that `VALUE` reads as, after its
/// leading `0x` are removed.
pub proof fn lemma_token_value_of_pair(name: Seq<char>, value: Seq<char>)
    requires
        !name.contains('='),
        !value.contains('='),
    ensures
        token_value(name + seq!['='] + value) == parse_hex(strip_hex_prefix(value)),
{
    let t = name + seq!['='] + value;
    assert forall|j: int| 0 <= j < name.len() implies t[j] != '=' by {
        assert(t[j] == name[j]);
    }
    assert(t[name.len() as int] == '=');
    lemma_index_or_len(t, '=', name.len() as int);
    let rest = t.skip(name.len() + 1int);
    assert(rest =~= value);
    assert forall|j: int| 0 <= j < value.len() implies value[j] != '=' by {
        if value[j] == '=' {
            assert(value.contains('='));
        }
    }
    lemma_index_or_len(value, '=', value.len() as int);
    assert(value.take(value.len() as int) =~= value);
}

/// The value of a `NAME=0xVALUE` token such as `A=0x1B`, or `None` where the
/// token has no `=` or what follows it is no hexadecimal `u32`.
pub fn read_token_value(token: &str) -> (r: Option<u32>)
    ensures
        r == token_value(token@),
{
    let chars = chars_of(token);
    parse_token_value(chars.as_slice())
}

/// The value of a `NAME=0xVALUE` token such as `A=0x1B`, on a token that has one.
pub fn take_token_and_return_value(token: &str) -> (v: u32)
    requires
        token_value(token@) is Some,
    ensures
        token_value(token@) == Some(v),
{
    match read_token_value(token) {
        Some(v) => v,
        None => 0,
    }
}

// ---------------------------------------------------------------------------
// What the readers are for
// ---------------------------------------------------------------------------

/// No printable ASCII character (`!` to `~`: letters, digits, `=`, `+` and the
/// rest) is whitespace; space, tab, carriage return and line feed are.
pub proof fn lemma_printable_ascii_is_not_white_space(c: char)
    ensures
        0x21 <= c as u32 <= 0x7E ==> !is_white_space(c),
        is_white_space(' '),
        is_white_space('\t'),
        is_white_space('\r'),
        is_white_space('\n'),
{
}

/// `words` of a text that is empty or ends in whitespace, followed by a
/// non-empty run of non-whitespace characters, is the words of the text with
/// that run added.
proof fn lemma_words_append_word(s: Seq<char>, t: Seq<char>)
    requires
        s.len() == 0 || is_white_space(s.last()),
        t.len() > 0,
        forall|j: int| 0 <= j < t.len() ==> !is_white_space(#[trigger] t[j]),
    ensures
        words(s + t) == words(s).push(t),
    decreases t.len(),
{
    let st = s + t;
    assert(st.drop_last() =~= s + t.drop_last());
    assert(st.last() == t.last());
    if t.len() == 1 {
        assert(s + t.drop_last() =~= s);
        assert(st.len() > 1 ==> st[st.len() - 2] == s.last());
        assert(t =~= seq![t.last()]);
    } else {
        lemma_words_append_word(s, t.drop_last());
        assert(st[st.len() - 2] == t[t.len() - 2]);
        assert(t.drop_last().push(t.last()) =~= t);
        assert(words(s).push(t.drop_last()).update(words(s).len() as int, t) =~= words(s).push(t));
    }
}

/// The tokens joined by single spaces.
pub open spec fn join_with_spaces(ts: Seq<Seq<char>>) -> Seq<char>
    decreases ts.len(),
{
    if ts.len() == 0 {
        seq![]
    } else if ts.len() == 1 {
        ts[0]
    } else {
        join_with_spaces(ts.drop_last()) + seq![' '] + ts.last()
    }
}

/// Splitting on whitespace undoes joining with single spaces: non-empty
/// tokens without whitespace, joined by single spaces, split back into the
/// same tokens.
pub proof fn lemma_words_of_joined_tokens(ts: Seq<Seq<char>>)
    requires
        forall|i: int| 0 <= i < ts.len() ==> (#[trigger] ts[i]).len() > 0,
        forall|i: int, j: int|
            0 <= i < ts.len() && 0 <= j < ts[i].len() ==> !is_white_space(#[trigger] ts[i][j]),
    ensures
        words(join_with_spaces(ts)) == ts,
    decreases ts.len(),
{
    if ts.len() == 1 {
        let t = ts[0];
        assert forall|j: int| 0 <= j < t.len() implies !is_white_space(#[trigger] t[j]) by {
            assert(ts[0][j] == t[j]);
        }
        lemma_words_append_word(seq![], t);
        assert(Seq::<char>::empty() + t =~= t);
        assert(ts =~= seq![t]);
    } else if ts.len() > 1 {
        let p = ts.drop_last();
        assert forall|i: int, j: int|
            0 <= i < p.len() && 0 <= j < p[i].len() implies !is_white_space(#[trigger] p[i][j]) by {
            assert(p[i] == ts[i]);
        }
        lemma_words_of_joined_tokens(p);
        let s = join_with_spaces(p) + seq![' '];
        assert(s.drop_last() =~= join_with_spaces(p));
        assert(words(s) == words(join_with_spaces(p)));
        let t = ts.last();
        assert forall|j: int| 0 <= j < t.len() implies !is_white_space(#[trigger] t[j]) by {
            assert(ts[ts.len() - 1][j] == t[j]);
        }
        lemma_words_append_word(s, t);
        assert(p.push(t) =~= ts);
    }
}

/// The hexadecimal digits `0123456789ABCDEF`.
pub open spec fn upper_hex_digits() -> Seq<char> {
    seq!['0', '1', '2', '3', '4', '5', '6', '7', '8', '9', 'A', 'B', 'C', 'D', 'E', 'F']
}

/// The hexadecimal digits `0123456789abcdef`.
pub open spec fn lower_hex_digits() -> Seq<char> {
    seq!['0', '1', '2', '3', '4', '5', '6', '7', '8', '9', 'a', 'b', 'c', 'd', 'e', 'f']
}

/// `n` written in hexadecimal with the sixteen digits of `alphabet`, most
/// significant first, without leading zeros (`0` for zero).
pub open spec fn hex_text(n: nat, alphabet: Seq<char>) -> Seq<char>
    decreases n,
{
    if n < 16 {
        seq![alphabet[n as int]]
    } else {
        hex_text(n / 16, alphabet).push(alphabet[(n % 16) as int])
    }
}

/// Each hexadecimal digit, in either case, is worth its place in
/// `0123456789ABCDEF` (or `0123456789abcdef`).
pub proof fn lemma_hex_digit_is_its_place(d: int)
    requires
        0 <= d < 16,
    ensures
        hex_digit(upper_hex_digits()[d]) == Some(d as nat),
        hex_digit(lower_hex_digits()[d]) == Some(d as nat),
{
    let u = upper_hex_digits();
    let l = lower_hex_digits();
    assert(u[0] == '0' && u[1] == '1' && u[2] == '2' && u[3] == '3' && u[4] == '4' && u[5] == '5'
        && u[6] == '6' && u[7] == '7' && u[8] == '8' && u[9] == '9' && u[10] == 'A' && u[11] == 'B'
        && u[12] == 'C' && u[13] == 'D' && u[14] == 'E' && u[15] == 'F');
    assert(l[0] == '0' && l[1] == '1' && l[2] == '2' && l[3] == '3' && l[4] == '4' && l[5] == '5'
        && l[6] == '6' && l[7] == '7' && l[8] == '8' && l[9] == '9' && l[10] == 'a' && l[11] == 'b'
        && l[12] == 'c' && l[13] == 'd' && l[14] == 'e' && l[15] == 'f');
}

/// The hexadecimal text of a number is non-empty, made of hexadecimal digits
/// only (no `x`, `=` or `+`), and is worth the number.
pub proof fn lemma_hex_text_value(n: nat, alphabet: Seq<char>)
    requires
        alphabet == upper_hex_digits() || alphabet == lower_hex_digits(),
    ensures
        hex_text(n, alphabet).len() > 0,
        all_hex(hex_text(n, alphabet)),
        hex_value(hex_text(n, alphabet)) == n,
        forall|j: int|
            0 <= j < hex_text(n, alphabet).len() ==> #[trigger] hex_text(n, alphabet)[j] != 'x'
                && hex_text(n, alphabet)[j] != '=' && hex_text(n, alphabet)[j] != '+',
    decreases n,
{
    let t = hex_text(n, alphabet);
    if n < 16 {
        lemma_hex_digit_is_its_place(n as int);
        assert(hex_digit(alphabet[n as int]) is Some);
        assert(t.drop_last() =~= Seq::<char>::empty());
        assert(t[0] == alphabet[n as int]);
        assert(t.last() == alphabet[n as int]);
        assert(hex_value(t) == hex_value(t.drop_last()) * 16 + hex_digit(t.last()).unwrap_or(0));
    } else {
        lemma_hex_text_value(n / 16, alphabet);
        lemma_hex_digit_is_its_place((n % 16) as int);
        let p = hex_text(n / 16, alphabet);
        let c = alphabet[(n % 16) as int];
        assert(hex_digit(c) == Some((n % 16) as nat));
        assert(t == p.push(c));
        assert(t.drop_last() =~= p);
        assert(t.last() == c);
        assert(hex_value(t) == hex_value(p) * 16 + (n % 16));
        assert(n == (n / 16) * 16 + n % 16) by (nonlinear_arith);
        assert forall|j: int| 0 <= j < t.len() implies (#[trigger] hex_digit(t[j])) is Some && t[j]
            != 'x' && t[j] != '=' && t[j] != '+' by {
            if j < p.len() {
                assert(t[j] == p[j]);
                assert(hex_digit(p[j]) is Some);
            } else {
                assert(t[j] == c);
            }
        }
    }
}

/// A `NAME=0x` token followed by the hexadecimal digits of any `u32` (either
/// case), where the name holds no `=`, reads back as that number.
pub proof fn lemma_token_reads_hex_text(name: Seq<char>, n: u32, alphabet: Seq<char>)
    requires
        !name.contains('='),
        alphabet == upper_hex_digits() || alphabet == lower_hex_digits(),
    ensures
        token_value(name + seq!['='] + seq!['0', 'x'] + hex_text(n as nat, alphabet)) == Some(n),
{
    let t = hex_text(n as nat, alphabet);
    lemma_hex_text_value(n as nat, alphabet);
    let v = seq!['0', 'x'] + t;
    assert(name + seq!['='] + seq!['0', 'x'] + t =~= name + seq!['='] + v);
    assert(!v.contains('=')) by {
        if v.contains('=') {
            let j = choose|j: int| 0 <= j < v.len() && v[j] == '=';
            assert(v[0] == '0' && v[1] == 'x');
            assert(j >= 2);
            assert(v[j] == t[j - 2]);
            assert(t[j - 2] != '=');
        }
    }
    lemma_token_value_of_pair(name, v);
    assert(v.skip(2) =~= t);
    assert(strip_hex_prefix(v) == strip_hex_prefix(t));
    assert(t.len() >= 2 ==> t[1] != 'x');
    assert(strip_hex_prefix(t) == t);
    assert(t[0] != '+');
}

} // verus!
