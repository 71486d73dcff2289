//! Text: equality, hexadecimal, and the operations of std that the parsers
//! rest on.

use vstd::prelude::*;
use vstd::utf8::*;

verus! {

/// Whether two texts are the same, by the `==` of `str`, which compares them
/// character by character.
#[verifier::external_body]
pub(crate) fn same_text(a: &str, b: &str) -> (same: bool)
    ensures
        same == (a@ == b@),
{
    a == b
}

/// `String::push` appends one character.
#[verifier::external_body]
pub(crate) fn push_char(s: &mut String, c: char)
    ensures
        final(s)@ == old(s)@.push(c),
{
    s.push(c);
}

/// The characters with the Unicode property `White_Space`.
pub open spec fn is_white_space(c: char) -> bool {
    let n = c as u32;
    ||| 0x9 <= n <= 0xd
    ||| n == 0x20
    ||| n == 0x85
    ||| n == 0xa0
    ||| n == 0x1680
    ||| 0x2000 <= n <= 0x200a
    ||| n == 0x2028
    ||| n == 0x2029
    ||| n == 0x202f
    ||| n == 0x205f
    ||| n == 0x3000
}

/// The control characters, the Unicode category `Cc`.
pub open spec fn is_control(c: char) -> bool {
    let n = c as u32;
    n <= 0x1f || 0x7f <= n <= 0x9f
}

/// `s` without the white space at its start.
pub open spec fn trimmed_start(s: Seq<char>) -> Seq<char>
    decreases s.len(),
{
    if s.len() > 0 && is_white_space(s[0]) {
        trimmed_start(s.drop_first())
    } else {
        s
    }
}

/// `s` without the white space at its end.
pub open spec fn trimmed_end(s: Seq<char>) -> Seq<char>
    decreases s.len(),
{
    if s.len() > 0 && is_white_space(s.last()) {
        trimmed_end(s.drop_last())
    } else {
        s
    }
}

/// `s` without the white space at its ends.
pub open spec fn trimmed(s: Seq<char>) -> Seq<char> {
    trimmed_end(trimmed_start(s))
}

/// A text that neither starts nor ends with white space is its own trimming.
pub proof fn lemma_trimmed_is_identity(s: Seq<char>)
    requires
        s.len() > 0,
        !is_white_space(s[0]),
        !is_white_space(s.last()),
    ensures
        trimmed(s) == s,
{
}

/// `str::trim` removes the characters with the property `White_Space` from
/// both ends.
pub assume_specification<'a>[ str::trim ](s: &'a str) -> (res: &'a str)
    ensures
        res@ == trimmed(s@),
;

/// `char::is_control` tells the characters of the category `Cc`.
pub assume_specification[ char::is_control ](c: char) -> (control: bool)
    ensures
        control == is_control(c),
;

/// The lower-case hexadecimal digit of a value below 16.
pub open spec fn hex_digit(n: int) -> char {
    if n < 10 {
        (n + 0x30) as char
    } else {
        (n + 0x57) as char
    }
}

/// The lower-case hexadecimal form of a byte string, two digits for each
/// byte.
pub open spec fn hex(bytes: Seq<u8>) -> Seq<char> {
    Seq::new(
        2 * bytes.len(),
        |i: int|
            if i % 2 == 0 {
                hex_digit(bytes[i / 2] as int / 16)
            } else {
                hex_digit(bytes[i / 2] as int % 16)
            },
    )
}

fn hex_char(n: u8) -> (c: char)
    requires
        n < 16,
    ensures
        c == hex_digit(n as int),
{
    if n < 10 {
        (n + 0x30) as char
    } else {
        (n + 0x57) as char
    }
}

/// Appends the lower-case hexadecimal form of `bytes` to `out`.
pub fn push_hex(out: &mut String, bytes: &[u8])
    ensures
        final(out)@ == old(out)@ + hex(bytes@),
{
    let ghost start = out@;
    let mut i: usize = 0;
    assert(hex(bytes@.take(0)) =~= Seq::<char>::empty());
    assert(start + Seq::<char>::empty() =~= start);
    while i < bytes.len()
        invariant
            i <= bytes.len(),
            out@ == start + hex(bytes@.take(i as int)),
        decreases bytes.len() - i,
    {
        let b: u8 = bytes[i];
        push_char(out, hex_char(b / 16));
        push_char(out, hex_char(b % 16));
        assert(out@ =~= start + hex(bytes@.take(i + 1)));
        i += 1;
    }
    assert(bytes@.take(i as int) =~= bytes@);
}

/// The lower-case hexadecimal form of `bytes`.
pub fn hex_lower(bytes: &[u8]) -> (text: String)
    ensures
        text@ == hex(bytes@),
{
    let mut out: String = String::new();
    push_hex(&mut out, bytes);
    assert(out@ =~= hex(bytes@));
    out
}

/// The value of a hexadecimal digit, given as a byte. Upper-case letters are
/// digits only where `upper` holds.
pub open spec fn nibble(b: u8, upper: bool) -> Option<int> {
    if 0x30 <= b <= 0x39 {
        Some(b - 0x30)
    } else if 0x61 <= b <= 0x66 {
        Some(b - 0x57)
    } else if upper && 0x41 <= b <= 0x46 {
        Some(b - 0x37)
    } else {
        None
    }
}

/// The 32 bytes that 64 hexadecimal digits write, if `b` is that.
pub open spec fn unhex32(b: Seq<u8>, upper: bool) -> Option<Seq<u8>> {
    if b.len() == 64 && forall|i: int| 0 <= i < 64 ==> nibble(#[trigger] b[i], upper) is Some {
        Some(
            Seq::new(
                32,
                |i: int|
                    (nibble(b[2 * i], upper)->Some_0 * 16 + nibble(
                        b[2 * i + 1],
                        upper,
                    )->Some_0) as u8,
            ),
        )
    } else {
        None
    }
}

/// The hexadecimal form of 32 bytes reads back as the bytes.
pub proof fn law_hex_reads_back(bytes: Seq<u8>, upper: bool)
    requires
        bytes.len() == 32,
    ensures
        unhex32(encode_utf8(hex(bytes)), upper) == Some(bytes),
{
    let h = hex(bytes);
    assert(is_ascii_chars(h));
    is_ascii_chars_encode_utf8(h);
    let b = encode_utf8(h);
    assert forall|i: int| 0 <= i < 64 implies nibble(#[trigger] b[i], upper) == Some(
        (if i % 2 == 0 {
            bytes[i / 2] as int / 16
        } else {
            bytes[i / 2] as int % 16
        }),
    ) by {
        assert(b[i] == h[i] as u8);
    }
    assert(unhex32(b, upper)->Some_0 =~= bytes) by {
        assert forall|i: int| 0 <= i < 32 implies unhex32(b, upper)->Some_0[i] == bytes[i] by {
            assert(nibble(b[2 * i], upper) == Some(bytes[i] as int / 16));
            assert(nibble(b[2 * i + 1], upper) == Some(bytes[i] as int % 16));
        }
    }
}

/// The value of a hexadecimal digit.
pub fn hex_nibble(c: u8, upper: bool) -> (value: Option<u8>)
    ensures
        match value {
            Some(v) => nibble(c, upper) == Some(v as int) && v < 16,
            None => nibble(c, upper) is None,
        },
{
    if 0x30 <= c && c <= 0x39 {
        Some(c - 0x30)
    } else if 0x61 <= c && c <= 0x66 {
        Some(c - 0x57)
    } else if upper && 0x41 <= c && c <= 0x46 {
        Some(c - 0x37)
    } else {
        None
    }
}

/// Reads 32 bytes from 64 hexadecimal digits.
pub fn read_hex32(b: &[u8], upper: bool) -> (bytes: Option<[u8; 32]>)
    ensures
        match bytes {
            Some(k) => unhex32(b@, upper) == Some(k@),
            None => unhex32(b@, upper) is None,
        },
{
    if b.len() != 64 {
        return None;
    }
    let mut out: [u8; 32] = [0u8; 32];
    let mut i: usize = 0;
    while i < 32
        invariant
            i <= 32,
            b@.len() == 64,
            forall|j: int| 0 <= j < 2 * i ==> nibble(#[trigger] b@[j], upper) is Some,
            forall|j: int|
                0 <= j < i ==> #[trigger] out@[j] == nibble(b@[2 * j], upper)->Some_0 * 16
                    + nibble(b@[2 * j + 1], upper)->Some_0,
        decreases 32 - i,
    {
        let hi: u8 = match hex_nibble(b[2 * i], upper) {
            Some(v) => v,
            None => return None,
        };
        let lo: u8 = match hex_nibble(b[2 * i + 1], upper) {
            Some(v) => v,
            None => return None,
        };
        out[i] = hi * 16 + lo;
        i += 1;
    }
    assert(out@ =~= unhex32(b@, upper)->Some_0);
    Some(out)
}

/// The bytes of a text are the bytes of its parts.
pub proof fn lemma_utf8_concat(a: Seq<char>, b: Seq<char>)
    ensures
        encode_utf8(a + b) == encode_utf8(a) + encode_utf8(b),
    decreases a.len(),
{
    if a.len() == 0 {
        assert(a + b =~= b);
        assert(encode_utf8(a) + encode_utf8(b) =~= encode_utf8(b));
    } else {
        assert((a + b).drop_first() =~= a.drop_first() + b);
        lemma_utf8_concat(a.drop_first(), b);
        assert(encode_utf8(a + b) =~= encode_utf8(a) + encode_utf8(b));
    }
}

/// A byte below 0x80 is a character of its own: a character starts after it.
proof fn lemma_boundary_after_ascii(b: Seq<u8>, n: int)
    requires
        valid_utf8(b),
        0 < n <= b.len(),
        b[n - 1] < 0x80,
    ensures
        is_char_boundary(b, n),
{
    is_char_boundary_start_end_of_seq(b);
    if n < b.len() {
        is_char_boundary_iff_not_is_continuation_byte(b, n - 1);
        is_char_boundary_iff_not_is_continuation_byte(b, n);
        utf8_byte_ranges_bitwise(b[n - 1]);
        utf8_byte_ranges_bitwise(b[n]);
        valid_utf8_split(b, n - 1);
        let tail = b.subrange(n - 1, b.len() as int);
        assert(tail[0] == b[n - 1]);
        let rest = pop_first_scalar(tail);
        assert(rest =~= b.subrange(n, b.len() as int));
        assert(rest[0] == b[n]);
        reveal_with_fuel(valid_utf8, 3);
        assert(valid_first_scalar(rest));
    }
}

/// A byte below 0x80 in the bytes of a text is a character of the text.
pub proof fn lemma_ascii_byte_is_char(chars: Seq<char>, i: int)
    requires
        0 <= i < encode_utf8(chars).len(),
        encode_utf8(chars)[i] < 0x80,
    ensures
        chars.contains(encode_utf8(chars)[i] as char),
{
    let b = encode_utf8(chars);
    encode_utf8_valid_utf8(chars);
    encode_utf8_decode_utf8(chars);
    is_char_boundary_iff_not_is_continuation_byte(b, i);
    utf8_byte_ranges_bitwise(b[i]);
    valid_utf8_split(b, i);
    decode_utf8_split(b, i);
    let head = b.subrange(0, i);
    let tail = b.subrange(i, b.len() as int);
    assert(tail[0] == b[i]);
    let n = b[i];
    assert(codepoint_width_1(n) == n as u32) by (bit_vector)
        requires
            n < 0x80,
    ;
    assert(decode_utf8(tail)[0] == decode_first_scalar(tail) as char);
    assert(chars[decode_utf8(head).len() as int] == decode_utf8(tail)[0]);
}

/// Cuts a text where a character starts: at its ends, or beside a byte below
/// 0x80.
pub fn cut(s: &str, n: usize) -> (parts: (&str, &str))
    requires
        n <= encode_utf8(s@).len(),
        0 < n < encode_utf8(s@).len() ==> encode_utf8(s@)[n as int] < 0x80 || encode_utf8(
            s@,
        )[n - 1] < 0x80,
    ensures
        encode_utf8(parts.0@) == encode_utf8(s@).take(n as int),
        encode_utf8(parts.1@) == encode_utf8(s@).skip(n as int),
{
    let ghost all = encode_utf8(s@);
    proof {
        encode_utf8_valid_utf8(s@);
        is_char_boundary_start_end_of_seq(all);
        if 0 < n < all.len() {
            if all[n as int] < 0x80 {
                is_char_boundary_iff_not_is_continuation_byte(all, n as int);
                utf8_byte_ranges_bitwise(all[n as int]);
            } else {
                lemma_boundary_after_ascii(all, n as int);
            }
        }
    }
    let parts: (&str, &str) = s.split_at(n);
    proof {
        assert(all.subrange(0, n as int) =~= all.take(n as int));
        assert(all.subrange(n as int, all.len() as int) =~= all.skip(n as int));
    }
    parts
}

/// Whether `n` is the first place of a byte in a byte string.
pub open spec fn is_first_of(b: Seq<u8>, byte: u8, n: int) -> bool {
    &&& 0 <= n < b.len()
    &&& b[n] == byte
    &&& forall|i: int| 0 <= i < n ==> #[trigger] b[i] != byte
}

/// The first place of a byte in a byte string, if it is there.
pub fn find_byte(b: &[u8], byte: u8) -> (place: Option<usize>)
    ensures
        match place {
            Some(n) => is_first_of(b@, byte, n as int),
            None => !b@.contains(byte),
        },
{
    let mut i: usize = 0;
    while i < b.len()
        invariant
            i <= b.len(),
            forall|j: int| 0 <= j < i ==> #[trigger] b@[j] != byte,
        decreases b.len() - i,
    {
        if b[i] == byte {
            return Some(i);
        }
        i += 1;
    }
    None
}

/// The number that decimal digits write.
pub open spec fn decimal(b: Seq<u8>) -> int
    decreases b.len(),
{
    if b.len() == 0 {
        0
    } else {
        decimal(b.drop_last()) * 10 + (b.last() - 0x30)
    }
}

/// Whether a byte string is made of decimal digits, at least one.
pub open spec fn are_digits(b: Seq<u8>) -> bool {
    b.len() > 0 && forall|i: int| 0 <= i < b.len() ==> 0x30 <= #[trigger] b[i] <= 0x39
}

/// The number that a text writes: digits, a plus sign before them allowed,
/// that fit into 64 bits.
pub open spec fn number_in(b: Seq<u8>) -> Option<u64> {
    let digits = if b.len() > 0 && b[0] == 0x2b {
        b.skip(1)
    } else {
        b
    };
    if are_digits(digits) && decimal(digits) <= u64::MAX {
        Some(decimal(digits) as u64)
    } else {
        None
    }
}

fn read_digits(b: &[u8]) -> (n: Option<u64>)
    ensures
        n == (if are_digits(b@) && decimal(b@) <= u64::MAX {
            Some(decimal(b@) as u64)
        } else {
            None::<u64>
        }),
{
    if b.len() == 0 {
        return None;
    }
    let mut n: u64 = 0;
    let mut i: usize = 0;
    let mut fits: bool = true;
    assert(b@.take(0) =~= Seq::<u8>::empty());
    while i < b.len()
        invariant
            i <= b.len(),
            forall|j: int| 0 <= j < i ==> 0x30 <= #[trigger] b@[j] <= 0x39,
            fits ==> n == decimal(b@.take(i as int)),
            !fits ==> decimal(b@.take(i as int)) > u64::MAX,
        decreases b.len() - i,
    {
        if b[i] < 0x30 || b[i] > 0x39 {
            return None;
        }
        proof {
            assert(b@.take(i + 1).drop_last() =~= b@.take(i as int));
            assert(b@.take(i + 1).last() == b@[i as int]);
        }
        if fits {
            let d: u64 = (b[i] - 0x30) as u64;
            if n > (u64::MAX - d) / 10 {
                fits = false;
            } else {
                n = n * 10 + d;
            }
        }
        i += 1;
    }
    assert(b@.take(i as int) =~= b@);
    if fits {
        Some(n)
    } else {
        None
    }
}

/// Reads a number.
pub fn read_number(s: &str) -> (n: Option<u64>)
    ensures
        n == number_in(encode_utf8(s@)),
{
    let b: &[u8] = s.as_bytes();
    if b.len() > 0 && b[0] == 0x2b {
        let digits: &[u8] = vstd::slice::slice_subrange(b, 1, b.len());
        assert(digits@ =~= b@.skip(1));
        read_digits(digits)
    } else {
        read_digits(b)
    }
}

/// The decimal form of a number.
pub open spec fn decimal_text(n: nat) -> Seq<char>
    decreases n,
{
    let digit = (0x30 + n % 10) as char;
    if n < 10 {
        seq![digit]
    } else {
        decimal_text(n / 10).push(digit)
    }
}

fn digit_char(n: u64) -> (c: char)
    requires
        n < 10,
    ensures
        c == (0x30 + n) as char,
{
    (0x30u8 + n as u8) as char
}

/// Appends the decimal form of `n` to `out`.
pub fn push_decimal(out: &mut String, n: u64)
    ensures
        final(out)@ == old(out)@ + decimal_text(n as nat),
    decreases n,
{
    if n >= 10 {
        push_decimal(out, n / 10);
    }
    let ghost before = out@;
    push_char(out, digit_char(n % 10));
    assert(out@ =~= old(out)@ + decimal_text(n as nat));
}

/// Lower-case digits are the only way to write 32 bytes where upper-case ones
/// are no digits: what reads as the bytes is their hexadecimal form.
pub proof fn law_lower_digits_write_back(b: Seq<u8>, bytes: Seq<u8>)
    requires
        unhex32(b, false) == Some(bytes),
    ensures
        bytes.len() == 32,
        encode_utf8(hex(bytes)) == b,
{
    let h = hex(bytes);
    assert(is_ascii_chars(h));
    is_ascii_chars_encode_utf8(h);
    let c = encode_utf8(h);
    assert forall|i: int| 0 <= i < 64 implies #[trigger] c[i] == b[i] by {
        assert(c[i] == h[i] as u8);
        assert(nibble(b[2 * (i / 2)], false) is Some);
        assert(nibble(b[2 * (i / 2) + 1], false) is Some);
        assert(bytes[i / 2] == nibble(b[2 * (i / 2)], false)->Some_0 * 16 + nibble(
            b[2 * (i / 2) + 1],
            false,
        )->Some_0);
    }
    assert(c =~= b);
}

/// A digit more makes a number ten times as large and adds the digit.
pub proof fn law_digits_are_decimal(b: Seq<u8>, digit: u8)
    requires
        0x30 <= digit <= 0x39,
    ensures
        decimal(b.push(digit)) == 10 * decimal(b) + (digit - 0x30),
        decimal(Seq::<u8>::empty()) == 0,
        are_digits(b.push(digit)) <==> b.len() == 0 || are_digits(b),
{
    assert(b.push(digit).drop_last() =~= b);
    if are_digits(b.push(digit)) && b.len() > 0 {
        assert forall|i: int| 0 <= i < b.len() implies 0x30 <= #[trigger] b[i] <= 0x39 by {
            assert(b.push(digit)[i] == b[i]);
        }
    }
}

proof fn lemma_decimal_text(n: nat)
    ensures
        is_ascii_chars(decimal_text(n)),
        are_digits(encode_utf8(decimal_text(n))),
        decimal(encode_utf8(decimal_text(n))) == n,
        encode_utf8(decimal_text(n)).len() == decimal_text(n).len(),
    decreases n,
{
    let t = decimal_text(n);
    let digit = (0x30 + n % 10) as char;
    if n < 10 {
        assert(t =~= seq![digit]);
        assert(is_ascii_chars(t));
        is_ascii_chars_encode_utf8(t);
        let b = encode_utf8(t);
        assert(b.len() == 1 && b[0] == t[0] as u8);
        assert(b.drop_last() =~= Seq::<u8>::empty());
        assert(decimal(b.drop_last()) == 0);
    } else {
        lemma_decimal_text(n / 10);
        let front = decimal_text(n / 10);
        assert(is_ascii_chars(t));
        is_ascii_chars_encode_utf8(t);
        is_ascii_chars_encode_utf8(front);
        let b = encode_utf8(t);
        let f = encode_utf8(front);
        assert(b.drop_last() =~= f) by {
            assert forall|i: int| 0 <= i < f.len() implies b[i] == #[trigger] f[i] by {
                assert(t[i] == front[i]);
            }
        }
        assert(b.last() == digit as u8);
        assert forall|i: int| 0 <= i < b.len() implies 0x30 <= #[trigger] b[i] <= 0x39 by {
            if i < f.len() {
                assert(b[i] == f[i]);
            }
        }
    }
}

/// The decimal form of a number reads back as the number.
pub proof fn law_decimal_form_reads_back(n: u64, s: &str, read: Option<u64>)
    requires
        s@ == decimal_text(n as nat),
        call_ensures(read_number, (s,), read),
    ensures
        read == Some(n),
{
    lemma_decimal_text(n as nat);
    let b = encode_utf8(s@);
    assert(0x30 <= b[0] <= 0x39);
}

/// The hexadecimal form of a key that was written is read as the key.
pub proof fn law_written_digits_are_read(
    bytes: &[u8],
    written: String,
    b: &[u8],
    upper: bool,
    read: Option<[u8; 32]>,
)
    requires
        bytes@.len() == 32,
        call_ensures(hex_lower, (bytes,), written),
        b@ == encode_utf8(written@),
        call_ensures(read_hex32, (b, upper), read),
    ensures
        written@.len() == 64,
        read matches Some(k) && k@ == bytes@,
{
    law_hex_reads_back(bytes@, upper);
}

/// Digits are read for what they are worth; letters from `a` to `f` are worth
/// ten to fifteen, in upper case only where that is allowed, and nothing else
/// is a digit.
pub proof fn law_digits_have_their_worth(c: u8, upper: bool, value: Option<u8>)
    requires
        call_ensures(hex_nibble, (c, upper), value),
    ensures
        0x30 <= c <= 0x39 ==> value == Some((c - 0x30) as u8),
        0x61 <= c <= 0x66 ==> value == Some((c - 0x61 + 10) as u8),
        0x41 <= c <= 0x46 && upper ==> value == Some((c - 0x41 + 10) as u8),
        !(0x30 <= c <= 0x39 || 0x61 <= c <= 0x66 || (upper && 0x41 <= c <= 0x46)) ==> value is None,
{
}

} // verus!
