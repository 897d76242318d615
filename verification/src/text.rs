use vstd::prelude::*;
use vstd::string::StringSliceAdditionalSpecFns;
use vstd::utf8::*;

verus! {

/// The character of the decimal digit `d`.
pub open spec fn digit_char(d: nat) -> char {
    (48 + d) as char
}

/// The decimal digits of `n`, without leading zeros.
pub open spec fn decimal_chars(n: nat) -> Seq<char>
    decreases n,
{
    if n < 10 {
        seq![digit_char(n)]
    } else {
        decimal_chars(n / 10).push(digit_char(n % 10))
    }
}

/// `s`, padded on the left with zeros to at least `width` characters.
pub open spec fn zero_pad(s: Seq<char>, width: nat) -> Seq<char> {
    if s.len() >= width {
        s
    } else {
        Seq::new((width - s.len()) as nat, |i: int| '0') + s
    }
}

/// Whether `c` is one of the ASCII digits `0` to `9`.
pub open spec fn is_ascii_digit(c: char) -> bool {
    '0' <= c && c <= '9'
}

/// The number that the ASCII digits `s` spell in decimal.
pub open spec fn digits_value(s: Seq<char>) -> nat
    decreases s.len(),
{
    if s.len() == 0 {
        0
    } else {
        digits_value(s.drop_last()) * 10 + ((s.last() as int - 48) as nat)
    }
}

/// What `str::parse::<u32>` gives for `s`: an optional `+`, then one or more
/// ASCII digits whose value fits in 32 bits.
pub open spec fn parsed_u32(s: Seq<char>) -> Option<u32> {
    let t = if s.len() > 0 && s[0] == '+' {
        s.drop_first()
    } else {
        s
    };
    if t.len() > 0 && (forall|i: int| 0 <= i < t.len() ==> is_ascii_digit(#[trigger] t[i]))
        && digits_value(t) <= u32::MAX {
        Some(digits_value(t) as u32)
    } else {
        None
    }
}

/// The text that `str::to_lowercase` makes of `s` (Unicode lower-case mapping).
pub uninterp spec fn lowercase(s: Seq<char>) -> Seq<char>;

/// `n` in decimal, padded with leading zeros to at least `width` characters
/// (`format!("{:01$}", n, width)`). std documents integer `Display` as the
/// decimal digits without leading zeros, and the `0` flag as padding with
/// zeros up to the width. A width argument above 65535 makes formatting
/// panic ("Formatting argument out of range"), so it is left out.
#[verifier::external_body]
pub(crate) fn format_decimal(n: u32, width: usize) -> (res: String)
    requires
        width <= 65535,
    ensures
        res@ == zero_pad(decimal_chars(n as nat), width as nat),
{
    format!("{:01$}", n, width)
}

/// `std::str::from_utf8`: the text that `bytes` encode when they are valid
/// UTF-8, else `None`.
#[verifier::external_body]
pub(crate) fn str_from_utf8(bytes: &[u8]) -> (res: Option<&str>)
    ensures
        res is Some <==> valid_utf8(bytes@),
        res matches Some(s) ==> s.spec_bytes() == bytes@,
{
    std::str::from_utf8(bytes).ok()
}

/// `str::split_once` with a `char` pattern: the text before and after the
/// first occurrence of `delimiter`, or `None` when it does not occur.
#[verifier::external_body]
pub(crate) fn split_once_char(s: &str, delimiter: char) -> (res: Option<(&str, &str)>)
    ensures
        match res {
            None => !s@.contains(delimiter),
            Some((before, after)) => {
                &&& s@ == before@ + seq![delimiter] + after@
                &&& !before@.contains(delimiter)
            },
        },
{
    s.split_once(delimiter)
}

/// `str::parse::<u32>`, as std documents `u32::from_str`.
#[verifier::external_body]
pub(crate) fn parse_u32(s: &str) -> (res: Option<u32>)
    ensures
        res == parsed_u32(s@),
{
    s.parse::<u32>().ok()
}

/// `str::to_lowercase`. Its result is named by `lowercase`; nothing more of
/// the Unicode mapping is stated.
#[verifier::external_body]
pub(crate) fn str_to_lowercase(s: &str) -> (res: String)
    ensures
        res@ == lowercase(s@),
{
    s.to_lowercase()
}

/// Whether `c` is a decimal digit of any script: the Unicode general
/// category Nd (Decimal_Number), Unicode 16.0.
pub open spec fn is_decimal_digit(c: char) -> bool {
    let v = c as u32;
    (0x30 <= v && v <= 0x39)
    || (0x660 <= v && v <= 0x669)
    || (0x6f0 <= v && v <= 0x6f9)
    || (0x7c0 <= v && v <= 0x7c9)
    || (0x966 <= v && v <= 0x96f)
    || (0x9e6 <= v && v <= 0x9ef)
    || (0xa66 <= v && v <= 0xa6f)
    || (0xae6 <= v && v <= 0xaef)
    || (0xb66 <= v && v <= 0xb6f)
    || (0xbe6 <= v && v <= 0xbef)
    || (0xc66 <= v && v <= 0xc6f)
    || (0xce6 <= v && v <= 0xcef)
    || (0xd66 <= v && v <= 0xd6f)
    || (0xde6 <= v && v <= 0xdef)
    || (0xe50 <= v && v <= 0xe59)
    || (0xed0 <= v && v <= 0xed9)
    || (0xf20 <= v && v <= 0xf29)
    || (0x1040 <= v && v <= 0x1049)
    || (0x1090 <= v && v <= 0x1099)
    || (0x17e0 <= v && v <= 0x17e9)
    || (0x1810 <= v && v <= 0x1819)
    || (0x1946 <= v && v <= 0x194f)
    || (0x19d0 <= v && v <= 0x19d9)
    || (0x1a80 <= v && v <= 0x1a89)
    || (0x1a90 <= v && v <= 0x1a99)
    || (0x1b50 <= v && v <= 0x1b59)
    || (0x1bb0 <= v && v <= 0x1bb9)
    || (0x1c40 <= v && v <= 0x1c49)
    || (0x1c50 <= v && v <= 0x1c59)
    || (0xa620 <= v && v <= 0xa629)
    || (0xa8d0 <= v && v <= 0xa8d9)
    || (0xa900 <= v && v <= 0xa909)
    || (0xa9d0 <= v && v <= 0xa9d9)
    || (0xa9f0 <= v && v <= 0xa9f9)
    || (0xaa50 <= v && v <= 0xaa59)
    || (0xabf0 <= v && v <= 0xabf9)
    || (0xff10 <= v && v <= 0xff19)
    || (0x104a0 <= v && v <= 0x104a9)
    || (0x10d30 <= v && v <= 0x10d39)
    || (0x10d40 <= v && v <= 0x10d49)
    || (0x11066 <= v && v <= 0x1106f)
    || (0x110f0 <= v && v <= 0x110f9)
    || (0x11136 <= v && v <= 0x1113f)
    || (0x111d0 <= v && v <= 0x111d9)
    || (0x112f0 <= v && v <= 0x112f9)
    || (0x11450 <= v && v <= 0x11459)
    || (0x114d0 <= v && v <= 0x114d9)
    || (0x11650 <= v && v <= 0x11659)
    || (0x116c0 <= v && v <= 0x116c9)
    || (0x116d0 <= v && v <= 0x116e3)
    || (0x11730 <= v && v <= 0x11739)
    || (0x118e0 <= v && v <= 0x118e9)
    || (0x11950 <= v && v <= 0x11959)
    || (0x11bf0 <= v && v <= 0x11bf9)
    || (0x11c50 <= v && v <= 0x11c59)
    || (0x11d50 <= v && v <= 0x11d59)
    || (0x11da0 <= v && v <= 0x11da9)
    || (0x11f50 <= v && v <= 0x11f59)
    || (0x16130 <= v && v <= 0x16139)
    || (0x16a60 <= v && v <= 0x16a69)
    || (0x16ac0 <= v && v <= 0x16ac9)
    || (0x16b50 <= v && v <= 0x16b59)
    || (0x16d70 <= v && v <= 0x16d79)
    || (0x1ccf0 <= v && v <= 0x1ccf9)
    || (0x1d7ce <= v && v <= 0x1d7ff)
    || (0x1e140 <= v && v <= 0x1e149)
    || (0x1e2f0 <= v && v <= 0x1e2f9)
    || (0x1e4f0 <= v && v <= 0x1e4f9)
    || (0x1e5f1 <= v && v <= 0x1e5fa)
    || (0x1e950 <= v && v <= 0x1e959)
    || (0x1fbf0 <= v && v <= 0x1fbf9)
}

/// Whether `c` is a decimal digit of any script (see `is_decimal_digit`).
pub fn char_is_decimal_digit(c: char) -> (res: bool)
    ensures
        res == is_decimal_digit(c),
{
    let v: u32 = c as u32;
    (0x30 <= v && v <= 0x39)
    || (0x660 <= v && v <= 0x669)
    || (0x6f0 <= v && v <= 0x6f9)
    || (0x7c0 <= v && v <= 0x7c9)
    || (0x966 <= v && v <= 0x96f)
    || (0x9e6 <= v && v <= 0x9ef)
    || (0xa66 <= v && v <= 0xa6f)
    || (0xae6 <= v && v <= 0xaef)
    || (0xb66 <= v && v <= 0xb6f)
    || (0xbe6 <= v && v <= 0xbef)
    || (0xc66 <= v && v <= 0xc6f)
    || (0xce6 <= v && v <= 0xcef)
    || (0xd66 <= v && v <= 0xd6f)
    || (0xde6 <= v && v <= 0xdef)
    || (0xe50 <= v && v <= 0xe59)
    || (0xed0 <= v && v <= 0xed9)
    || (0xf20 <= v && v <= 0xf29)
    || (0x1040 <= v && v <= 0x1049)
    || (0x1090 <= v && v <= 0x1099)
    || (0x17e0 <= v && v <= 0x17e9)
    || (0x1810 <= v && v <= 0x1819)
    || (0x1946 <= v && v <= 0x194f)
    || (0x19d0 <= v && v <= 0x19d9)
    || (0x1a80 <= v && v <= 0x1a89)
    || (0x1a90 <= v && v <= 0x1a99)
    || (0x1b50 <= v && v <= 0x1b59)
    || (0x1bb0 <= v && v <= 0x1bb9)
    || (0x1c40 <= v && v <= 0x1c49)
    || (0x1c50 <= v && v <= 0x1c59)
    || (0xa620 <= v && v <= 0xa629)
    || (0xa8d0 <= v && v <= 0xa8d9)
    || (0xa900 <= v && v <= 0xa909)
    || (0xa9d0 <= v && v <= 0xa9d9)
    || (0xa9f0 <= v && v <= 0xa9f9)
    || (0xaa50 <= v && v <= 0xaa59)
    || (0xabf0 <= v && v <= 0xabf9)
    || (0xff10 <= v && v <= 0xff19)
    || (0x104a0 <= v && v <= 0x104a9)
    || (0x10d30 <= v && v <= 0x10d39)
    || (0x10d40 <= v && v <= 0x10d49)
    || (0x11066 <= v && v <= 0x1106f)
    || (0x110f0 <= v && v <= 0x110f9)
    || (0x11136 <= v && v <= 0x1113f)
    || (0x111d0 <= v && v <= 0x111d9)
    || (0x112f0 <= v && v <= 0x112f9)
    || (0x11450 <= v && v <= 0x11459)
    || (0x114d0 <= v && v <= 0x114d9)
    || (0x11650 <= v && v <= 0x11659)
    || (0x116c0 <= v && v <= 0x116c9)
    || (0x116d0 <= v && v <= 0x116e3)
    || (0x11730 <= v && v <= 0x11739)
    || (0x118e0 <= v && v <= 0x118e9)
    || (0x11950 <= v && v <= 0x11959)
    || (0x11bf0 <= v && v <= 0x11bf9)
    || (0x11c50 <= v && v <= 0x11c59)
    || (0x11d50 <= v && v <= 0x11d59)
    || (0x11da0 <= v && v <= 0x11da9)
    || (0x11f50 <= v && v <= 0x11f59)
    || (0x16130 <= v && v <= 0x16139)
    || (0x16a60 <= v && v <= 0x16a69)
    || (0x16ac0 <= v && v <= 0x16ac9)
    || (0x16b50 <= v && v <= 0x16b59)
    || (0x16d70 <= v && v <= 0x16d79)
    || (0x1ccf0 <= v && v <= 0x1ccf9)
    || (0x1d7ce <= v && v <= 0x1d7ff)
    || (0x1e140 <= v && v <= 0x1e149)
    || (0x1e2f0 <= v && v <= 0x1e2f9)
    || (0x1e4f0 <= v && v <= 0x1e4f9)
    || (0x1e5f1 <= v && v <= 0x1e5fa)
    || (0x1e950 <= v && v <= 0x1e959)
    || (0x1fbf0 <= v && v <= 0x1fbf9)
}

/// The text that valid UTF-8 bytes decode to is the text they were made from.
pub proof fn lemma_str_of_bytes(s: &str, bytes: Seq<u8>)
    requires
        s.spec_bytes() == bytes,
    ensures
        s@ == decode_utf8(bytes),
        valid_utf8(bytes),
{
    encode_utf8_decode_utf8(s@);
    encode_utf8_valid_utf8(s@);
}

/// The sign of the comparison of two byte strings as Rust compares them:
/// lexicographically, a proper prefix coming first. Negative when `a` comes
/// first, zero when they are equal, positive when `b` comes first.
pub open spec fn lex_sign(a: Seq<u8>, b: Seq<u8>) -> int
    decreases a.len(),
{
    if a.len() == 0 {
        if b.len() == 0 {
            0
        } else {
            -1
        }
    } else if b.len() == 0 {
        1
    } else if a[0] < b[0] {
        -1
    } else if a[0] > b[0] {
        1
    } else {
        lex_sign(a.drop_first(), b.drop_first())
    }
}

/// Compares two byte strings as Rust compares them (see `lex_sign`).
pub fn compare_bytes(a: &[u8], b: &[u8]) -> (res: i8)
    ensures
        res as int == lex_sign(a@, b@),
{
    let mut i: usize = 0;
    assert(a@.skip(0) =~= a@);
    assert(b@.skip(0) =~= b@);
    while i < a.len() && i < b.len()
        invariant
            i <= a@.len(),
            i <= b@.len(),
            lex_sign(a@, b@) == lex_sign(a@.skip(i as int), b@.skip(i as int)),
        decreases a@.len() - i,
    {
        if a[i] < b[i] {
            return -1;
        }
        if a[i] > b[i] {
            return 1;
        }
        assert(a@.skip(i as int).drop_first() =~= a@.skip(i + 1));
        assert(b@.skip(i as int).drop_first() =~= b@.skip(i + 1));
        i = i + 1;
    }
    if i < a.len() {
        1
    } else if i < b.len() {
        -1
    } else {
        0
    }
}

/// Swapping two byte strings flips the sign of their comparison.
pub proof fn lemma_lex_sign_antisymmetric(a: Seq<u8>, b: Seq<u8>)
    ensures
        lex_sign(a, b) == -lex_sign(b, a),
    decreases a.len(),
{
    if a.len() > 0 && b.len() > 0 && a[0] == b[0] {
        lemma_lex_sign_antisymmetric(a.drop_first(), b.drop_first());
    }
}

/// A byte string compares equal exactly to itself.
pub proof fn lemma_lex_sign_equal(a: Seq<u8>, b: Seq<u8>)
    ensures
        lex_sign(a, b) == 0 <==> a == b,
    decreases a.len(),
{
    if a.len() > 0 && b.len() > 0 {
        lemma_lex_sign_equal(a.drop_first(), b.drop_first());
        if a[0] == b[0] && a.drop_first() == b.drop_first() {
            assert(a =~= seq![a[0]] + a.drop_first());
            assert(b =~= seq![b[0]] + b.drop_first());
        }
        if a == b {
            assert(a.drop_first() =~= b.drop_first());
        }
    } else if a.len() == 0 && b.len() == 0 {
        assert(a =~= b);
    }
}

/// Byte strings compare transitively: what comes before something that
/// comes before `c` comes before `c`.
pub proof fn lemma_lex_sign_transitive(a: Seq<u8>, b: Seq<u8>, c: Seq<u8>)
    requires
        lex_sign(a, b) < 0,
        lex_sign(b, c) < 0,
    ensures
        lex_sign(a, c) < 0,
    decreases a.len(),
{
    if a.len() > 0 && b.len() > 0 && c.len() > 0 && a[0] == b[0] && b[0] == c[0] {
        lemma_lex_sign_transitive(a.drop_first(), b.drop_first(), c.drop_first());
    }
}

/// The decimal digits of a number are ASCII digits, at least one, and spell
/// the number; `str::parse::<u32>` reads them back.
pub proof fn lemma_decimal_chars(n: nat)
    ensures
        decimal_chars(n).len() >= 1,
        forall|i: int| 0 <= i < decimal_chars(n).len() ==> is_ascii_digit(#[trigger] decimal_chars(n)[i]),
        digits_value(decimal_chars(n)) == n,
        n <= u32::MAX ==> parsed_u32(decimal_chars(n)) == Some(n as u32),
    decreases n,
{
    let last = digit_char(n % 10);
    assert(last as int == 48 + n % 10);
    if n >= 10 {
        lemma_decimal_chars(n / 10);
        let d = decimal_chars(n);
        assert(d.drop_last() =~= decimal_chars(n / 10));
        assert(d.last() == last);
    } else {
        assert(decimal_chars(n).drop_last() =~= Seq::<char>::empty());
    }
    let d = decimal_chars(n);
    assert(d.last() == last);
    assert(digits_value(d) == digits_value(d.drop_last()) * 10 + ((d.last() as int - 48) as nat));
    assert(digits_value(d) == n);
    assert(is_ascii_digit(d[0]));
    assert(d[0] != '+');
}

/// Zeros in front of ASCII digits do not change the number they spell.
proof fn lemma_leading_zeros_value(k: nat, s: Seq<char>)
    ensures
        digits_value(Seq::new(k, |i: int| '0') + s) == digits_value(s),
    decreases s.len(), k,
{
    let z = Seq::new(k, |i: int| '0');
    if s.len() == 0 {
        assert(z + s =~= z);
        if k > 0 {
            lemma_leading_zeros_value((k - 1) as nat, s);
            assert(z.drop_last() =~= Seq::new((k - 1) as nat, |i: int| '0') + s);
        }
    } else {
        lemma_leading_zeros_value(k, s.drop_last());
        assert((z + s).drop_last() =~= z + s.drop_last());
    }
}

/// Only zero is written with a leading `0`, and it is written `0` alone.
proof fn lemma_decimal_leading_digit(n: nat)
    ensures
        decimal_chars(n)[0] == '0' ==> n == 0,
        n == 0 ==> decimal_chars(n) == seq!['0'],
    decreases n,
{
    if n >= 10 {
        lemma_decimal_leading_digit(n / 10);
        lemma_decimal_chars(n / 10);
        assert(decimal_chars(n)[0] == decimal_chars(n / 10)[0]);
    }
}

/// The text of `n` padded to `width`: ASCII digits that spell `n`, at least
/// `width` of them and at least one, with no leading `0` beyond the padding
/// (so exactly `width` of them, or the digits of `n` alone where those are
/// more).
pub proof fn law_padded_decimal(n: nat, width: nat)
    ensures
        ({
            let t = zero_pad(decimal_chars(n), width);
            &&& t.len() >= width
            &&& t.len() >= 1
            &&& forall|i: int| 0 <= i < t.len() ==> is_ascii_digit(#[trigger] t[i])
            &&& digits_value(t) == n
            &&& t.len() > width && t.len() > 1 ==> t[0] != '0'
        }),
{
    let d = decimal_chars(n);
    lemma_decimal_chars(n);
    lemma_decimal_leading_digit(n);
    if d.len() < width {
        let k = (width - d.len()) as nat;
        lemma_leading_zeros_value(k, d);
        let t = zero_pad(d, width);
        assert forall|i: int| 0 <= i < t.len() implies is_ascii_digit(#[trigger] t[i]) by {
            if i >= k {
                assert(t[i] == d[i - k]);
            }
        }
    }
}

/// An ASCII digit is a decimal digit.
pub proof fn lemma_ascii_digit_is_decimal(c: char)
    requires
        is_ascii_digit(c),
    ensures
        is_decimal_digit(c),
{
}

/// How Rust orders byte strings: `x` comes before `y` exactly when, at the
/// first place where they differ, `y` goes on and `x` has ended or holds a
/// smaller byte; they compare equal exactly when they are the same.
pub proof fn law_lex_sign_first_difference(x: Seq<u8>, y: Seq<u8>)
    ensures
        lex_sign(x, y) < 0 <==> exists|i: int|
            0 <= i <= x.len() && i < y.len() && #[trigger] x.take(i) == y.take(i) && (i == x.len()
                || x[i] < y[i]),
        lex_sign(x, y) == 0 <==> x == y,
        lex_sign(x, y) > 0 <==> lex_sign(y, x) < 0,
        -1 <= lex_sign(x, y) <= 1,
    decreases x.len(),
{
    lemma_lex_sign_equal(x, y);
    lemma_lex_sign_antisymmetric(x, y);
    if x.len() > 0 && y.len() > 0 && x[0] == y[0] {
        let (xr, yr) = (x.drop_first(), y.drop_first());
        law_lex_sign_first_difference(xr, yr);
        if lex_sign(x, y) < 0 {
            let i = choose|i: int|
                0 <= i <= xr.len() && i < yr.len() && #[trigger] xr.take(i) == yr.take(i) && (i
                    == xr.len() || xr[i] < yr[i]);
            assert(x.take(i + 1) =~= seq![x[0]] + xr.take(i));
            assert(y.take(i + 1) =~= seq![y[0]] + yr.take(i));
            assert(x.take(i + 1) == y.take(i + 1));
        }
        if exists|i: int|
            0 <= i <= x.len() && i < y.len() && #[trigger] x.take(i) == y.take(i) && (i == x.len()
                || x[i] < y[i]) {
            let i = choose|i: int|
                0 <= i <= x.len() && i < y.len() && #[trigger] x.take(i) == y.take(i) && (i
                    == x.len() || x[i] < y[i]);
            if i == 0 {
                assert(x.len() > 0);
            } else {
                assert(xr.take(i - 1) =~= x.take(i).drop_first());
                assert(yr.take(i - 1) =~= y.take(i).drop_first());
                assert(xr.take(i - 1) == yr.take(i - 1));
                if i < x.len() {
                    assert(xr[i - 1] == x[i]);
                }
            }
        }
    } else if x.len() > 0 && y.len() > 0 {
        assert(x.take(0) =~= y.take(0));
        if x[0] > y[0] {
            if exists|i: int|
                0 <= i <= x.len() && i < y.len() && #[trigger] x.take(i) == y.take(i) && (i
                    == x.len() || x[i] < y[i]) {
                let i = choose|i: int|
                    0 <= i <= x.len() && i < y.len() && #[trigger] x.take(i) == y.take(i) && (i
                        == x.len() || x[i] < y[i]);
                if i > 0 {
                    assert(x.take(i)[0] == y.take(i)[0]);
                }
            }
        }
    } else if x.len() == 0 && y.len() > 0 {
        assert(x.take(0) =~= y.take(0));
    }
}

} // verus!
