//! Text of form payloads: UTF-8 decoding, comparison of strings, and the
//! numerals that parameters are written in.
//!
//! The numeral grammar is the one of Rust's integer parsing: an optional sign,
//! then at least one digit, nothing else, and a value that fits the type.
use vstd::prelude::*;
use vstd::string::*;
use vstd::utf8::*;

verus! {

/// The value of `c` as a digit in `radix`: `0`-`9`, then the letters of
/// either case from ten on. `None` where `c` is no digit below `radix`.
pub open spec fn digit_in(c: char, radix: nat) -> Option<nat> {
    let v: int = if '0' <= c && c <= '9' {
        c as int - 0x30
    } else if 'a' <= c && c <= 'z' {
        c as int - 0x61 + 10
    } else if 'A' <= c && c <= 'Z' {
        c as int - 0x41 + 10
    } else {
        -1
    };
    if 0 <= v && v < radix {
        Some(v as nat)
    } else {
        None
    }
}

/// Every character of `s` is a digit in `radix`.
pub open spec fn all_digits(s: Seq<char>, radix: nat) -> bool {
    forall|i: int| 0 <= i < s.len() ==> (#[trigger] digit_in(s[i], radix)) is Some
}

/// The number that the digits of `s` write in `radix`, most significant first.
pub open spec fn digits_value(s: Seq<char>, radix: nat) -> nat
    decreases s.len(),
{
    if s.len() == 0 {
        0
    } else {
        digits_value(s.drop_last(), radix) * radix + match digit_in(s.last(), radix) {
            Some(d) => d,
            None => 0,
        }
    }
}

/// The value of a numeral without sign: at least one digit, and digits only.
pub open spec fn magnitude(s: Seq<char>, radix: nat) -> Option<nat> {
    if s.len() > 0 && all_digits(s, radix) {
        Some(digits_value(s, radix))
    } else {
        None
    }
}

/// The value of a numeral that may begin with one `+`.
pub open spec fn unsigned_numeral(s: Seq<char>, radix: nat) -> Option<nat> {
    if s.len() > 0 && s[0] == '+' {
        magnitude(s.skip(1), radix)
    } else {
        magnitude(s, radix)
    }
}

/// `s` read as a `u32` in `radix`; `None` where `s` is no numeral or the
/// value does not fit.
pub open spec fn radix_u32(s: Seq<char>, radix: nat) -> Option<u32> {
    match unsigned_numeral(s, radix) {
        Some(v) => if v <= u32::MAX {
            Some(v as u32)
        } else {
            None
        },
        None => None,
    }
}

/// `s` read as a decimal `u32`.
pub open spec fn decimal_u32(s: Seq<char>) -> Option<u32> {
    radix_u32(s, 10)
}

/// `s` read as a hexadecimal `u32`.
pub open spec fn hex_u32(s: Seq<char>) -> Option<u32> {
    radix_u32(s, 16)
}

/// `s` read as a decimal `i32`: one `+` or `-` may come first.
pub open spec fn decimal_i32(s: Seq<char>) -> Option<i32> {
    if s.len() > 0 && s[0] == '-' {
        match magnitude(s.skip(1), 10) {
            Some(v) => if v <= 0x8000_0000 {
                Some((-(v as int)) as i32)
            } else {
                None
            },
            None => None,
        }
    } else {
        match unsigned_numeral(s, 10) {
            Some(v) => if v <= i32::MAX {
                Some(v as i32)
            } else {
                None
            },
            None => None,
        }
    }
}

/// The characters that ASCII bytes stand for, one per byte.
pub open spec fn ascii_text(bytes: Seq<u8>) -> Seq<char> {
    Seq::new(bytes.len(), |i: int| bytes[i] as char)
}

/// How many times `c` stands at the front of `s` before another character.
pub open spec fn leading(s: Seq<char>, c: char) -> int
    decreases s.len(),
{
    if s.len() > 0 && s[0] == c {
        1 + leading(s.drop_first(), c)
    } else {
        0
    }
}

/// `s` without every `c` at its front.
pub open spec fn without_leading(s: Seq<char>, c: char) -> Seq<char> {
    s.skip(leading(s, c))
}

/// `leading` is the length of the run of `c` that `s` begins with.
pub proof fn lemma_leading(s: Seq<char>, c: char, k: int)
    requires
        0 <= k <= s.len(),
        forall|i: int| 0 <= i < k ==> s[i] == c,
        k < s.len() ==> s[k] != c,
    ensures
        leading(s, c) == k,
    decreases s.len(),
{
    if k > 0 {
        let rest = s.drop_first();
        assert forall|i: int| 0 <= i < k - 1 implies rest[i] == c by {
            assert(rest[i] == s[i + 1]);
        }
        if k - 1 < rest.len() {
            assert(rest[k - 1] == s[k]);
        }
        lemma_leading(rest, c, k - 1);
    }
}

/// The run that `leading` counts lies within `s` and holds `c` only.
pub proof fn lemma_leading_run(s: Seq<char>, c: char)
    ensures
        0 <= leading(s, c) <= s.len(),
        forall|i: int| 0 <= i < leading(s, c) ==> s[i] == c,
    decreases s.len(),
{
    if s.len() > 0 && s[0] == c {
        let rest = s.drop_first();
        lemma_leading_run(rest, c);
        assert forall|i: int| 0 <= i < leading(s, c) implies s[i] == c by {
            if i > 0 {
                assert(s[i] == rest[i - 1]);
            }
        }
    }
}

/// A prefix of a numeral never writes a larger number than the whole.
proof fn lemma_prefix_value(s: Seq<char>, k: int, radix: nat)
    requires
        0 <= k <= s.len(),
        radix >= 1,
    ensures
        digits_value(s.take(k), radix) <= digits_value(s, radix),
    decreases s.len(),
{
    if k == s.len() {
        assert(s.take(k) =~= s);
    } else {
        let front = s.drop_last();
        lemma_prefix_value(front, k, radix);
        assert(front.take(k) =~= s.take(k));
        let a = digits_value(front, radix);
        assert(a * radix >= a) by (nonlinear_arith)
            requires
                radix >= 1,
                a >= 0,
        ;
    }
}

/// No character lies below `'\0'`.
proof fn lemma_char_range(c: char)
    ensures
        '\0' <= c,
{
}

/// A text with a character beyond ASCII holds no numeral, with or without sign.
proof fn lemma_beyond_ascii(s: Seq<char>, from: int, radix: nat)
    requires
        !is_ascii_chars(s),
        0 <= from <= s.len(),
        forall|i: int| 0 <= i < from ==> s[i] <= '\u{7f}',
        radix <= 36,
    ensures
        magnitude(s.skip(from), radix) is None,
        unsigned_numeral(s.skip(from), radix) is None,
        from < s.len(),
{
    assert(exists|j: int| 0 <= j < s.len() && !('\0' <= #[trigger] s[j] <= '\u{7f}'));
    let j = choose|j: int| 0 <= j < s.len() && !('\0' <= #[trigger] s[j] <= '\u{7f}');
    lemma_char_range(s[j]);
    assert(s[j] > '\u{7f}');
    assert(j >= from);
    let t = s.skip(from);
    assert(t[j - from] == s[j]);
    assert(digit_in(t[j - from], radix) is None);
    if t[0] == '+' {
        assert(t.skip(1)[j - from - 1] == s[j]);
        assert(digit_in(t.skip(1)[j - from - 1], radix) is None);
    }
}

/// The digit that the byte `b` writes in `radix`, if it writes one.
fn digit_of(b: u8, radix: u32) -> (r: Option<u32>)
    requires
        radix <= 36,
    ensures
        match r {
            Some(d) => digit_in(b as char, radix as nat) == Some(d as nat),
            None => digit_in(b as char, radix as nat) is None,
        },
{
    let v: u32 = if 0x30 <= b && b <= 0x39 {
        (b - 0x30) as u32
    } else if 0x61 <= b && b <= 0x7a {
        (b - 0x61) as u32 + 10
    } else if 0x41 <= b && b <= 0x5a {
        (b - 0x41) as u32 + 10
    } else {
        return None;
    };
    if v < radix {
        Some(v)
    } else {
        None
    }
}

/// Reads the digits of `bytes` from `from` to the end; gives up where one is
/// no digit, where there is none, or where the value passes `limit`.
fn scan_digits(bytes: &[u8], from: usize, radix: u32, limit: u64) -> (r: Option<u64>)
    requires
        from <= bytes.len(),
        1 <= radix <= 36,
        limit <= 0x1_0000_0000,
    ensures
        r == match magnitude(ascii_text(bytes@).skip(from as int), radix as nat) {
            Some(v) => if v <= limit {
                Some(v as u64)
            } else {
                None
            },
            None => None,
        },
{
    let ghost text = ascii_text(bytes@).skip(from as int);
    let mut acc: u64 = 0;
    let mut i: usize = from;
    while i < bytes.len()
        invariant
            from <= i <= bytes.len(),
            1 <= radix <= 36,
            limit <= 0x1_0000_0000,
            text == ascii_text(bytes@).skip(from as int),
            all_digits(text.take(i - from), radix as nat),
            acc == digits_value(text.take(i - from), radix as nat),
            acc <= limit,
        decreases bytes.len() - i,
    {
        let ghost seen = text.take(i - from);
        let ghost more = text.take(i - from + 1);
        assert(more.drop_last() =~= seen);
        assert(more.last() == text[i - from]);
        assert(text[i - from] == bytes@[i as int] as char);
        match digit_of(bytes[i], radix) {
            None => {
                assert(!all_digits(text, radix as nat));
                return None;
            },
            Some(d) => {
                assert(acc * radix + d <= 0x1_0000_0000 * 36 + 36) by (nonlinear_arith)
                    requires
                        acc <= 0x1_0000_0000,
                        radix <= 36,
                        d < 36,
                ;
                let next: u64 = acc * (radix as u64) + d as u64;
                assert(next == digits_value(more, radix as nat));
                assert(all_digits(more, radix as nat)) by {
                    assert forall|k: int| 0 <= k < more.len() implies (#[trigger] digit_in(
                        more[k],
                        radix as nat,
                    )) is Some by {
                        if k < seen.len() {
                            assert(more[k] == seen[k]);
                        }
                    }
                }
                if next > limit {
                    proof {
                        lemma_prefix_value(text, i - from + 1, radix as nat);
                    }
                    return None;
                }
                acc = next;
                i = i + 1;
            },
        }
    }
    assert(text.take(i - from) =~= text);
    if i == from {
        None
    } else {
        Some(acc)
    }
}

/// The bytes of `s` where all of it is ASCII: then each byte is one character.
fn ascii_bytes(s: &str) -> (r: Option<&[u8]>)
    ensures
        match r {
            Some(bytes) => ascii_text(bytes@) == s@ && is_ascii_chars(s@),
            None => !is_ascii_chars(s@),
        },
{
    if s.is_ascii() {
        let bytes = s.as_bytes();
        proof {
            is_ascii_chars_encode_utf8(s@);
            assert(ascii_text(bytes@) =~= s@) by {
                assert forall|i: int| 0 <= i < s@.len() implies ascii_text(bytes@)[i] == s@[i] by {
                    assert(s@[i] as u8 == bytes@[i]);
                    assert('\0' <= s@[i] <= '\u{7f}');
                }
            }
        }
        Some(bytes)
    } else {
        None
    }
}

/// Reads `s`, from its character `from` on, as a `u32` in `radix`.
fn parse_radix_from(s: &[u8], from: usize, radix: u32) -> (r: Option<u32>)
    requires
        from <= s.len(),
        1 <= radix <= 36,
    ensures
        r == radix_u32(ascii_text(s@).skip(from as int), radix as nat),
{
    let ghost text = ascii_text(s@).skip(from as int);
    let start: usize = if from < s.len() && s[from] == 0x2b {
        from + 1
    } else {
        from
    };
    assert(ascii_text(s@).skip(start as int) =~= if text.len() > 0 && text[0] == '+' {
        text.skip(1)
    } else {
        text
    });
    match scan_digits(s, start, radix, 0xffff_ffff) {
        Some(v) => Some(v as u32),
        None => None,
    }
}

/// Reads `s` as a decimal `u32`.
pub fn parse_u32(s: &str) -> (r: Option<u32>)
    ensures
        r == decimal_u32(s@),
{
    match ascii_bytes(s) {
        Some(bytes) => {
            assert(ascii_text(bytes@).skip(0) =~= s@);
            parse_radix_from(bytes, 0, 10)
        },
        None => {
            proof {
                lemma_beyond_ascii(s@, 0, 10);
                assert(s@.skip(0) =~= s@);
            }
            None
        },
    }
}

/// Reads `s` as a decimal `i32`.
pub fn parse_i32(s: &str) -> (r: Option<i32>)
    ensures
        r == decimal_i32(s@),
{
    match ascii_bytes(s) {
        Some(bytes) => {
            assert(ascii_text(bytes@).skip(0) =~= s@);
            if bytes.len() > 0 && bytes[0] == 0x2d {
                match scan_digits(bytes, 1, 10, 0x8000_0000) {
                    Some(v) => {
                        if v == 0x8000_0000 {
                            Some(i32::MIN)
                        } else {
                            Some(-(v as i32))
                        }
                    },
                    None => None,
                }
            } else {
                let start: usize = if bytes.len() > 0 && bytes[0] == 0x2b {
                    1
                } else {
                    0
                };
                assert(ascii_text(bytes@).skip(start as int) =~= if s@.len() > 0 && s@[0] == '+' {
                    s@.skip(1)
                } else {
                    s@
                });
                match scan_digits(bytes, start, 10, 0x7fff_ffff) {
                    Some(v) => Some(v as i32),
                    None => None,
                }
            }
        },
        None => {
            proof {
                lemma_beyond_ascii(s@, 0, 10);
                assert(s@.skip(0) =~= s@);
                if s@[0] == '-' {
                    lemma_beyond_ascii(s@, 1, 10);
                }
            }
            None
        },
    }
}

/// Reads what follows the `#`s at the front of `s` as a hexadecimal `u32`.
pub fn parse_hex_after_hashes(s: &str) -> (r: Option<u32>)
    ensures
        r == hex_u32(without_leading(s@, '#')),
{
    match ascii_bytes(s) {
        Some(bytes) => {
            let mut k: usize = 0;
            while k < bytes.len() && bytes[k] == 0x23
                invariant
                    k <= bytes.len(),
                    ascii_text(bytes@) == s@,
                    forall|i: int| 0 <= i < k ==> s@[i] == '#',
                decreases bytes.len() - k,
            {
                assert(s@[k as int] == bytes@[k as int] as char);
                k = k + 1;
            }
            proof {
                if k < bytes.len() {
                    assert(s@[k as int] == bytes@[k as int] as char);
                }
                lemma_leading(s@, '#', k as int);
            }
            parse_radix_from(bytes, k, 16)
        },
        None => {
            proof {
                let k = leading(s@, '#');
                lemma_leading_run(s@, '#');
                lemma_beyond_ascii(s@, k, 16);
            }
            None
        },
    }
}

/// The character that writes the digit `d`.
pub open spec fn digit_char(d: nat) -> char {
    if d == 0 {
        '0'
    } else if d == 1 {
        '1'
    } else if d == 2 {
        '2'
    } else if d == 3 {
        '3'
    } else if d == 4 {
        '4'
    } else if d == 5 {
        '5'
    } else if d == 6 {
        '6'
    } else if d == 7 {
        '7'
    } else if d == 8 {
        '8'
    } else {
        '9'
    }
}

/// `n` written in decimal, without sign and without leading zeros.
pub open spec fn decimal_text(n: nat) -> Seq<char>
    decreases n,
{
    if n < 10 {
        seq![digit_char(n)]
    } else {
        decimal_text(n / 10).push(digit_char(n % 10))
    }
}

/// The text of one decimal digit.
fn digit_str(d: u32) -> (s: &'static str)
    requires
        d < 10,
    ensures
        s@ == seq![digit_char(d as nat)],
{
    proof {
        reveal_strlit("0");
        reveal_strlit("1");
        reveal_strlit("2");
        reveal_strlit("3");
        reveal_strlit("4");
        reveal_strlit("5");
        reveal_strlit("6");
        reveal_strlit("7");
        reveal_strlit("8");
        reveal_strlit("9");
    }
    let s = if d == 0 {
        "0"
    } else if d == 1 {
        "1"
    } else if d == 2 {
        "2"
    } else if d == 3 {
        "3"
    } else if d == 4 {
        "4"
    } else if d == 5 {
        "5"
    } else if d == 6 {
        "6"
    } else if d == 7 {
        "7"
    } else if d == 8 {
        "8"
    } else {
        "9"
    };
    assert(s@ =~= seq![digit_char(d as nat)]);
    s
}

/// Writes `n` in decimal at the end of `out`.
pub fn append_decimal(out: &mut String, n: u32)
    ensures
        final(out)@ == old(out)@ + decimal_text(n as nat),
    decreases n,
{
    if n >= 10 {
        append_decimal(out, n / 10);
    }
    out.append(digit_str(n % 10));
    assert(out@ =~= old(out)@ + decimal_text(n as nat));
}

/// Whether two strings hold the same characters.
pub fn same_text(a: &str, b: &str) -> (r: bool)
    ensures
        r == (a@ == b@),
{
    let x = a.as_bytes();
    let y = b.as_bytes();
    proof {
        encode_utf8_decode_utf8(a@);
        encode_utf8_decode_utf8(b@);
    }
    if x.len() != y.len() {
        return false;
    }
    let mut i: usize = 0;
    while i < x.len()
        invariant
            i <= x.len(),
            x.len() == y.len(),
            x@ == a.spec_bytes(),
            y@ == b.spec_bytes(),
            forall|k: int| 0 <= k < i ==> x@[k] == y@[k],
        decreases x.len() - i,
    {
        if x[i] != y[i] {
            return false;
        }
        i = i + 1;
    }
    assert(x@ =~= y@);
    true
}

/// The text that `bytes` encode in UTF-8, where they encode one.
///
/// Trusted: calls `String::from_utf8`, which accepts exactly the well-formed
/// UTF-8 sequences and returns a string of the very bytes it was given.
#[verifier::external_body]
pub(crate) fn decode_text(bytes: &Vec<u8>) -> (r: Option<String>)
    ensures
        r is Some <==> valid_utf8(bytes@),
        r matches Some(s) ==> s@ == decode_utf8(bytes@),
{
    String::from_utf8(bytes.to_vec()).ok()
}

} // verus!
