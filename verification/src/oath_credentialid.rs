use vstd::prelude::*;
use vstd::slice::slice_to_vec;
use vstd::string::{StrSliceExecFns, StringExecFns, StringSliceAdditionalSpecFns};
use vstd::utf8::*;

use crate::constants::{OathType, Tag, DEFAULT_PERIOD};
use crate::text::{
    char_is_decimal_digit, decimal_chars, digits_value, format_decimal, is_ascii_digit,
    is_decimal_digit, lemma_ascii_digit_is_decimal, lemma_decimal_chars, lemma_str_of_bytes, parse_u32, parsed_u32, split_once_char, str_from_utf8,
};
use crate::tlv::{simple_tlv_bytes, to_tlv};

verus! {

/// The identifier of a credential stored on the device.
#[derive(Debug, Eq, Clone)]
pub struct CredentialIDData {
    pub name: String,
    pub oath_type: OathType,
    pub issuer: Option<String>,
    pub period: u32,
}

/// The contents of a credential identifier.
#[verifier::ext_equal]
pub struct CredentialIDDataView {
    pub name: Seq<char>,
    pub oath_type: OathType,
    pub issuer: Option<Seq<char>>,
    pub period: u32,
}

impl View for CredentialIDData {
    type V = CredentialIDDataView;

    open spec fn view(&self) -> CredentialIDDataView {
        CredentialIDDataView {
            name: self.name@,
            oath_type: self.oath_type,
            issuer: match self.issuer {
                Some(i) => Some(i@),
                None => None,
            },
            period: self.period,
        }
    }
}

/// The text of a credential identifier as the device stores it: for a TOTP
/// credential whose period is not the default, the period and `/`; then,
/// when there is an issuer, the issuer and `:`; then the name.
pub open spec fn cred_id_text(c: CredentialIDDataView) -> Seq<char> {
    let period_part = if c.oath_type == OathType::Totp && c.period != DEFAULT_PERIOD {
        decimal_chars(c.period as nat) + seq!['/']
    } else {
        Seq::<char>::empty()
    };
    let issuer_part = match c.issuer {
        Some(i) => i + seq![':'],
        None => Seq::<char>::empty(),
    };
    period_part + issuer_part + c.name
}

/// The identifier's text in UTF-8.
pub open spec fn cred_id_bytes(c: CredentialIDDataView) -> Seq<u8> {
    encode_utf8(cred_id_text(c))
}

/// How an identifier is written: in UTF-8, with the period and `/` in front
/// exactly when the credential is TOTP and its period is not the default of
/// 30 seconds, whether or not it has an issuer; then the issuer and `:` when
/// there is one; then the name.
pub proof fn law_cred_id_layout(c: CredentialIDDataView)
    ensures
        valid_utf8(cred_id_bytes(c)),
        (c.oath_type == OathType::Hotp || c.period == 30u32) && c.issuer is None ==> decode_utf8(
            cred_id_bytes(c),
        ) == c.name,
        (c.oath_type == OathType::Hotp || c.period == 30u32) && c.issuer is Some ==> decode_utf8(
            cred_id_bytes(c),
        ) == c.issuer->0 + seq![':'] + c.name,
        c.oath_type == OathType::Totp && c.period != 30u32 && c.issuer is None ==> decode_utf8(
            cred_id_bytes(c),
        ) == decimal_chars(c.period as nat) + seq!['/'] + c.name,
        c.oath_type == OathType::Totp && c.period != 30u32 && c.issuer is Some ==> decode_utf8(
            cred_id_bytes(c),
        ) == decimal_chars(c.period as nat) + seq!['/'] + c.issuer->0 + seq![':'] + c.name,
{
    encode_utf8_valid_utf8(cred_id_text(c));
    encode_utf8_decode_utf8(cred_id_text(c));
    let e = Seq::<char>::empty();
    assert(e + e + c.name =~= c.name);
    if c.issuer is Some {
        assert(e + (c.issuer->0 + seq![':']) + c.name =~= c.issuer->0 + seq![':'] + c.name);
    } else {
        assert(decimal_chars(c.period as nat) + seq!['/'] + e + c.name =~= decimal_chars(
            c.period as nat,
        ) + seq!['/'] + c.name);
    }
}

/// Where the run of decimal digits (any script) that starts at `i` ends.
pub open spec fn digit_run_end(s: Seq<char>, i: int) -> int
    decreases s.len() - i,
{
    if 0 <= i < s.len() && is_decimal_digit(s[i]) {
        digit_run_end(s, i + 1)
    } else {
        i
    }
}

/// Where the first `:` at or after `i` stands; the length when there is none.
pub open spec fn colon_from(s: Seq<char>, i: int) -> int
    decreases s.len() - i,
{
    if 0 <= i < s.len() && s[i] != ':' {
        colon_from(s, i + 1)
    } else {
        i
    }
}

/// How the part of a TOTP identifier after its optional period reads, as
/// issuer and name: a non-empty issuer without `:` up to the first `:`,
/// when what follows that `:` is non-empty and holds no line feed; else, when
/// the whole part is non-empty and holds no line feed, no issuer and the
/// whole part as name; else it does not read.
pub open spec fn read_issuer_name(r: Seq<char>) -> Option<(Option<Seq<char>>, Seq<char>)> {
    let j = colon_from(r, 0);
    if 1 <= j && j + 1 < r.len() && !r.skip(j + 1).contains('\n') {
        Some((Some(r.take(j)), r.skip(j + 1)))
    } else if r.len() > 0 && !r.contains('\n') {
        Some((None, r))
    } else {
        None
    }
}

/// How a TOTP identifier reads, as period digits, issuer and name: when it
/// starts with decimal digits and `/`, and the rest reads (see
/// `read_issuer_name`), the digits and the rest's issuer and name; else, no
/// period digits and what the whole identifier reads as. `None` when
/// neither reads.
pub open spec fn read_totp_id(s: Seq<char>) -> Option<
    (Option<Seq<char>>, Option<Seq<char>>, Seq<char>),
> {
    let k = digit_run_end(s, 0);
    if 1 <= k < s.len() && s[k] == '/' && read_issuer_name(s.skip(k + 1)) is Some {
        let (i, n) = read_issuer_name(s.skip(k + 1)).unwrap();
        Some((Some(s.take(k)), i, n))
    } else {
        match read_issuer_name(s) {
            Some((i, n)) => Some((None, i, n)),
            None => None,
        }
    }
}

/// The period that period digits give: their value when they are ASCII
/// digits whose value fits in 32 bits, else the default period.
pub open spec fn period_of_digits(d: Option<Seq<char>>) -> u32 {
    match d {
        Some(g) => match parsed_u32(g) {
            Some(p) => p,
            None => DEFAULT_PERIOD,
        },
        None => DEFAULT_PERIOD,
    }
}

/// `s` split at the first occurrence of `d`, if there is one.
pub open spec fn split_at_first(s: Seq<char>, d: char) -> Option<(Seq<char>, Seq<char>)>
    decreases s.len(),
{
    if s.len() == 0 {
        None
    } else if s[0] == d {
        Some((Seq::<char>::empty(), s.drop_first()))
    } else {
        match split_at_first(s.drop_first(), d) {
            Some((a, b)) => Some((seq![s[0]] + a, b)),
            None => None,
        }
    }
}

/// The kind of credential that a device tag stands for: the HOTP tag means
/// HOTP, any other tag TOTP.
pub open spec fn oath_type_of_tag(tag: u8) -> OathType {
    if tag == Tag::Hotp.spec_byte() {
        OathType::Hotp
    } else {
        OathType::Totp
    }
}

/// What reading the identifier bytes `bytes` of a credential of kind `t`
/// gives: issuer, name and period; `None` where the reading fails outright
/// (a TOTP identifier that reads without an issuer, see `read_totp_id`).
/// Bytes that are not UTF-8 give no issuer, an empty name and period 0. A
/// TOTP identifier that does not read is all name, with the default
/// period. A HOTP identifier is split at its first `:` into issuer
/// and name, and has period 0.
pub open spec fn parse_cred_id_spec(bytes: Seq<u8>, t: OathType) -> Option<
    (Option<Seq<char>>, Seq<char>, u32),
> {
    if !valid_utf8(bytes) {
        Some((None, Seq::<char>::empty(), 0))
    } else {
        let data = decode_utf8(bytes);
        if t == OathType::Totp {
            match read_totp_id(data) {
                None => Some((None, data, DEFAULT_PERIOD)),
                Some((digits, issuer, name)) => {
                    if issuer is Some {
                        Some((issuer, name, period_of_digits(digits)))
                    } else {
                        None
                    }
                },
            }
        } else {
            match split_at_first(data, ':') {
                Some((i, n)) => Some((Some(i), n, 0)),
                None => Some((None, data, 0)),
            }
        }
    }
}

/// Whether the identifier bytes can be read (see `parse_cred_id_spec`).
pub open spec fn cred_id_parses(bytes: Seq<u8>, tag: u8) -> bool {
    parse_cred_id_spec(bytes, oath_type_of_tag(tag)) is Some
}

/// The identifier that reading `bytes` under the device tag `tag` gives.
pub open spec fn cred_id_from_bytes(bytes: Seq<u8>, tag: u8) -> CredentialIDDataView {
    let t = oath_type_of_tag(tag);
    let (issuer, name, period) = parse_cred_id_spec(bytes, t).unwrap();
    CredentialIDDataView { name, oath_type: t, issuer, period }
}

/// Splitting at the first `d` is the unique split whose front holds no `d`.
proof fn lemma_split_at_first(s: Seq<char>, d: char, a: Seq<char>, b: Seq<char>)
    requires
        s == a + seq![d] + b,
        !a.contains(d),
    ensures
        split_at_first(s, d) == Some((a, b)),
    decreases a.len(),
{
    if a.len() == 0 {
        assert(s.drop_first() =~= b);
    } else {
        assert(s[0] == a[0]);
        assert(!a.drop_first().contains(d)) by {
            if a.drop_first().contains(d) {
                let j = choose|j: int| 0 <= j < a.drop_first().len() && a.drop_first()[j] == d;
                assert(a[j + 1] == d);
            }
        }
        assert(s.drop_first() =~= a.drop_first() + seq![d] + b);
        lemma_split_at_first(s.drop_first(), d, a.drop_first(), b);
        assert(seq![s[0]] + a.drop_first() =~= a);
    }
}

/// With no `d` in `s` there is nothing to split at.
proof fn lemma_split_at_first_none(s: Seq<char>, d: char)
    requires
        !s.contains(d),
    ensures
        split_at_first(s, d) is None,
    decreases s.len(),
{
    if s.len() > 0 {
        assert(!s.drop_first().contains(d)) by {
            if s.drop_first().contains(d) {
                let j = choose|j: int| 0 <= j < s.drop_first().len() && s.drop_first()[j] == d;
                assert(s[j + 1] == d);
            }
        }
        lemma_split_at_first_none(s.drop_first(), d);
        assert(s[0] != d);
    }
}

/// The view of an optional string slice.
pub open spec fn opt_view(o: Option<&str>) -> Option<Seq<char>> {
    match o {
        Some(t) => Some(t@),
        None => None,
    }
}

/// Where the run of decimal digits at the front of `s` ends.
fn digit_run(s: &str, n: usize) -> (k: usize)
    requires
        n == s@.len(),
    ensures
        k == digit_run_end(s@, 0),
        k <= n,
{
    let mut i: usize = 0;
    loop
        invariant
            i <= n,
            n == s@.len(),
            digit_run_end(s@, 0) == digit_run_end(s@, i as int),
        decreases n - i,
    {
        if i >= n {
            return i;
        }
        let c = s.get_char(i);
        if !char_is_decimal_digit(c) {
            return i;
        }
        i = i + 1;
    }
}

/// Where the first `:` of `s` stands; its length when there is none.
fn first_colon(s: &str, n: usize) -> (j: usize)
    requires
        n == s@.len(),
    ensures
        j == colon_from(s@, 0),
        j <= n,
{
    let mut i: usize = 0;
    loop
        invariant
            i <= n,
            n == s@.len(),
            colon_from(s@, 0) == colon_from(s@, i as int),
        decreases n - i,
    {
        if i >= n {
            return i;
        }
        if s.get_char(i) == ':' {
            return i;
        }
        i = i + 1;
    }
}

/// Whether `c` occurs in `s` at or after `from`.
fn occurs_from(s: &str, n: usize, from: usize, c: char) -> (res: bool)
    requires
        n == s@.len(),
        from <= n,
    ensures
        res == s@.skip(from as int).contains(c),
{
    let mut i: usize = from;
    while i < n
        invariant
            from <= i <= n,
            n == s@.len(),
            forall|j: int| from <= j < i ==> s@[j] != c,
        decreases n - i,
    {
        if s.get_char(i) == c {
            assert(s@.skip(from as int)[i - from] == c);
            return true;
        }
        i = i + 1;
    }
    assert forall|j: int| 0 <= j < s@.skip(from as int).len() implies s@.skip(from as int)[j] != c by {
        assert(s@.skip(from as int)[j] == s@[j + from]);
    }
    false
}

/// Reads the part of a TOTP identifier after its optional period (see
/// `read_issuer_name`).
fn read_issuer_name_exec(r: &str) -> (res: Option<(Option<&str>, &str)>)
    ensures
        match (res, read_issuer_name(r@)) {
            (Some((i, n)), Some((si, sn))) => opt_view(i) == si && n@ == sn,
            (None, None) => true,
            _ => false,
        },
{
    let n = r.unicode_len();
    let j = first_colon(r, n);
    if 1 <= j && j < n && j + 1 < n && !occurs_from(r, n, j + 1, '\n') {
        return Some((Some(r.substring_char(0, j)), r.substring_char(j + 1, n)));
    }
    let newline = occurs_from(r, n, 0, '\n');
    assert(r@.skip(0) =~= r@);
    if n > 0 && !newline {
        Some((None, r))
    } else {
        None
    }
}

/// Reads a TOTP identifier into period digits, issuer and name (see
/// `read_totp_id`).
fn read_totp_id_exec(s: &str) -> (res: Option<(Option<&str>, Option<&str>, &str)>)
    ensures
        match (res, read_totp_id(s@)) {
            (Some((d, i, n)), Some((sd, si, sn))) => opt_view(d) == sd && opt_view(i) == si && n@
                == sn,
            (None, None) => true,
            _ => false,
        },
{
    let n = s.unicode_len();
    let k = digit_run(s, n);
    if 1 <= k && k < n && s.get_char(k) == '/' {
        let rest = s.substring_char(k + 1, n);
        if let Some((i, name)) = read_issuer_name_exec(rest) {
            return Some((Some(s.substring_char(0, k)), i, name));
        }
    }
    match read_issuer_name_exec(s) {
        Some((i, name)) => Some((None, i, name)),
        None => None,
    }
}

/// Reads identifier bytes into issuer, name and period; `None` exactly
/// where `parse_cred_id_spec` says reading fails.
fn try_parse_cred_id(cred_id: &[u8], oath_type: OathType) -> (res: Option<
    (Option<String>, String, u32),
>)
    ensures
        match (res, parse_cred_id_spec(cred_id@, oath_type)) {
            (Some((i, n, p)), Some((si, sn, sp))) => i.deep_view() == si && n@ == sn && p == sp,
            (None, None) => true,
            _ => false,
        },
{
    let data = match str_from_utf8(cred_id) {
        Some(d) => d,
        None => return Some((None, String::new(), 0)),
    };
    proof {
        lemma_str_of_bytes(data, cred_id@);
    }
    if oath_type == OathType::Totp {
        match read_totp_id_exec(data) {
            None => Some((None, String::from_str(data), DEFAULT_PERIOD)),
            Some((digits, issuer, name)) => match issuer {
                Some(issuer) => {
                    let period = match digits {
                        Some(g) => match parse_u32(g) {
                            Some(p) => p,
                            None => DEFAULT_PERIOD,
                        },
                        None => DEFAULT_PERIOD,
                    };
                    Some((Some(String::from_str(issuer)), String::from_str(name), period))
                },
                None => None,
            },
        }
    } else {
        match split_once_char(data, ':') {
            Some((i, n)) => {
                proof {
                    lemma_split_at_first(data@, ':', i@, n@);
                }
                Some((Some(String::from_str(i)), String::from_str(n), 0))
            },
            None => {
                proof {
                    lemma_split_at_first_none(data@, ':');
                }
                Some((None, String::from_str(data), 0))
            },
        }
    }
}

impl CredentialIDData {
    /// Reads a credential identifier as the device lists it, with the tag of
    /// the object that came with it.
    pub fn from_tlv(id_bytes: &[u8], oath_type_tag: u8) -> (res: Self)
        requires
            cred_id_parses(id_bytes@, oath_type_tag),
        ensures
            res@ == cred_id_from_bytes(id_bytes@, oath_type_tag),
    {
        CredentialIDData::from_bytes(id_bytes, oath_type_tag)
    }

    /// The identifier serialized as a SIMPLE-TLV object under the name tag.
    pub fn as_tlv(&self) -> (res: Vec<u8>)
        requires
            cred_id_bytes(self@).len() <= 65536,
        ensures
            res@ == simple_tlv_bytes(Tag::Name.spec_byte(), cred_id_bytes(self@)),
    {
        to_tlv(Tag::Name, &self.format_cred_id())
    }

    /// The identifier in UTF-8 as the device stores it (see `cred_id_text`).
    pub fn format_cred_id(&self) -> (res: Vec<u8>)
        ensures
            res@ == cred_id_bytes(self@),
    {
        let mut cred_id = String::new();
        if self.oath_type == OathType::Totp && self.period != DEFAULT_PERIOD {
            let period = format_decimal(self.period, 0);
            cred_id.append(period.as_str());
            cred_id.append("/");
        }
        if let Some(issuer) = &self.issuer {
            cred_id.append(issuer.as_str());
            cred_id.append(":");
        }
        cred_id.append(self.name.as_str());
        proof {
            reveal_strlit("/");
            reveal_strlit(":");
            assert(cred_id@ =~= cred_id_text(self@));
        }
        slice_to_vec(cred_id.as_str().as_bytes())
    }

    /// Reads identifier bytes under the device tag `tag`: the HOTP tag means
    /// a HOTP credential, any other tag a TOTP credential.
    pub fn from_bytes(id_bytes: &[u8], tag: u8) -> (res: CredentialIDData)
        requires
            cred_id_parses(id_bytes@, tag),
        ensures
            res@ == cred_id_from_bytes(id_bytes@, tag),
    {
        let oath_type = if tag == Tag::Hotp.byte() {
            OathType::Hotp
        } else {
            OathType::Totp
        };
        match try_parse_cred_id(id_bytes, oath_type) {
            Some((issuer, name, period)) => CredentialIDData { issuer, name, period, oath_type },
            None => {
                proof {
                    assert(false);
                }
                CredentialIDData { issuer: None, name: String::new(), period: 0, oath_type }
            },
        }
    }

    /// `from_bytes` where the identifier can be read; `None` where it cannot.
    pub fn try_from_bytes(id_bytes: &[u8], tag: u8) -> (res: Option<CredentialIDData>)
        ensures
            res is Some <==> cred_id_parses(id_bytes@, tag),
            res matches Some(c) ==> c@ == cred_id_from_bytes(id_bytes@, tag),
    {
        let oath_type = if tag == Tag::Hotp.byte() {
            OathType::Hotp
        } else {
            OathType::Totp
        };
        if try_parse_cred_id(id_bytes, oath_type).is_some() {
            Some(CredentialIDData::from_bytes(id_bytes, tag))
        } else {
            None
        }
    }

    /// The identifier as shown to a user: `issuer: name`, or the name alone.
    pub open spec fn display_text(&self) -> Seq<char> {
        match self.issuer {
            Some(i) => i@ + ": "@ + self.name@,
            None => self.name@,
        }
    }

    /// The identifier as shown to a user (see `display_text`).
    pub fn to_display_string(&self) -> (res: String)
        ensures
            res@ == self.display_text(),
    {
        let mut s = String::new();
        if let Some(i) = &self.issuer {
            s.append(i.as_str());
            s.append(": ");
        }
        s.append(self.name.as_str());
        s
    }
}

/// A HOTP identifier written by `format_cred_id` reads back as the
/// identifier it was written from, when the text leaves no doubt where the
/// issuer ends: an issuer without `:`, or, without an issuer, a name
/// without `:`. HOTP identifiers have period 0 when read, so only those
/// are written back unchanged.
pub proof fn lemma_hotp_cred_id_roundtrip(c: CredentialIDDataView)
    requires
        c.oath_type == OathType::Hotp,
        c.period == 0,
        match c.issuer {
            Some(i) => !i.contains(':'),
            None => !c.name.contains(':'),
        },
    ensures
        cred_id_parses(cred_id_bytes(c), Tag::Hotp.spec_byte()),
        cred_id_from_bytes(cred_id_bytes(c), Tag::Hotp.spec_byte()) == c,
{
    let text = cred_id_text(c);
    encode_utf8_valid_utf8(text);
    encode_utf8_decode_utf8(text);
    match c.issuer {
        Some(i) => {
            assert(text =~= i + seq![':'] + c.name);
            lemma_split_at_first(text, ':', i, c.name);
        },
        None => {
            assert(text =~= c.name);
            lemma_split_at_first_none(text, ':');
        },
    }
    assert(cred_id_from_bytes(cred_id_bytes(c), Tag::Hotp.spec_byte()) =~= c);
}

/// The digit run from `i` ends at the first index from `i` on that holds no
/// decimal digit, or at the end.
proof fn lemma_digit_run_end(s: Seq<char>, i: int)
    requires
        0 <= i <= s.len(),
    ensures
        i <= digit_run_end(s, i) <= s.len(),
        forall|j: int| i <= j < digit_run_end(s, i) ==> is_decimal_digit(#[trigger] s[j]),
        digit_run_end(s, i) < s.len() ==> !is_decimal_digit(s[digit_run_end(s, i)]),
    decreases s.len() - i,
{
    if i < s.len() && is_decimal_digit(s[i]) {
        lemma_digit_run_end(s, i + 1);
    }
}

/// The first `:` from `i` on: no `:` before it, and a `:` there unless it is
/// the end.
proof fn lemma_colon_from(s: Seq<char>, i: int)
    requires
        0 <= i <= s.len(),
    ensures
        i <= colon_from(s, i) <= s.len(),
        forall|j: int| i <= j < colon_from(s, i) ==> #[trigger] s[j] != ':',
        colon_from(s, i) < s.len() ==> s[colon_from(s, i)] == ':',
    decreases s.len() - i,
{
    if i < s.len() && s[i] != ':' {
        lemma_colon_from(s, i + 1);
    }
}

/// An issuer without `:`, then `:`, then a non-empty name without a line
/// feed, reads as that issuer and name.
proof fn lemma_read_issuer_name(i: Seq<char>, name: Seq<char>)
    requires
        i.len() > 0,
        !i.contains(':'),
        name.len() > 0,
        !name.contains('\n'),
    ensures
        read_issuer_name(i + seq![':'] + name) == Some((Some(i), name)),
{
    let r = i + seq![':'] + name;
    lemma_colon_from(r, 0);
    let j = colon_from(r, 0);
    if j < i.len() {
        assert(r[j] == i[j]);
        assert(i.contains(':'));
    }
    assert(r[i.len() as int] == ':');
    assert(j == i.len());
    assert(r.take(j) =~= i);
    assert(r.skip(j + 1) =~= name);
}

/// A TOTP identifier written by `format_cred_id` reads back as the
/// identifier it was written from, under any tag but the HOTP tag, when it
/// has an issuer that is non-empty and holds neither `:` nor `/`, and a
/// non-empty name without a line feed. (Without an issuer, a TOTP
/// identifier does not read at all.)
pub proof fn lemma_totp_cred_id_roundtrip(c: CredentialIDDataView, tag: u8)
    requires
        c.oath_type == OathType::Totp,
        tag != Tag::Hotp.spec_byte(),
        c.issuer matches Some(i) && i.len() > 0 && !i.contains(':') && !i.contains('/'),
        c.name.len() > 0,
        !c.name.contains('\n'),
    ensures
        cred_id_parses(cred_id_bytes(c), tag),
        cred_id_from_bytes(cred_id_bytes(c), tag) == c,
{
    let i = c.issuer.unwrap();
    let text = cred_id_text(c);
    encode_utf8_valid_utf8(text);
    encode_utf8_decode_utf8(text);
    let r = i + seq![':'] + c.name;
    lemma_read_issuer_name(i, c.name);
    lemma_digit_run_end(text, 0);
    let k = digit_run_end(text, 0);
    if c.period != DEFAULT_PERIOD {
        let d = decimal_chars(c.period as nat);
        lemma_decimal_chars(c.period as nat);
        assert(text =~= d + seq!['/'] + r);
        if k < d.len() {
            lemma_ascii_digit_is_decimal(d[k]);
            assert(text[k] == d[k]);
        }
        if k > d.len() {
            assert(text[d.len() as int] == '/');
        }
        assert(k == d.len());
        assert(text[k] == '/');
        assert(text.skip(k + 1) =~= r);
        assert(text.take(k) =~= d);
        assert(read_totp_id(text) == Some((Some(d), Some(i), c.name)));
        assert(period_of_digits(Some(d)) == c.period);
    } else {
        assert(text =~= r);
        if 1 <= k < text.len() && text[k] == '/' {
            if k < i.len() {
                assert(text[k] == i[k]);
                assert(i.contains('/'));
            } else if k > i.len() {
                assert(text[i.len() as int] == ':');
            }
        }
        assert(read_totp_id(text) == Some((None::<Seq<char>>, Some(i), c.name)));
    }
    assert(cred_id_from_bytes(cred_id_bytes(c), tag) =~= c);
}

impl PartialEq for CredentialIDData {
    fn eq(&self, other: &Self) -> (res: bool) {
        let issuer_eq = match (&self.issuer, &other.issuer) {
            (Some(a), Some(b)) => a.eq(b),
            (None, None) => true,
            _ => false,
        };
        let res = self.name.eq(&other.name) && self.oath_type == other.oath_type && issuer_eq
            && self.period == other.period;
        proof {
            if res {
                assert(self@ =~= other@);
            } else if self@ == other@ {
                assert(self.name@ == other.name@);
                assert(self@.issuer == other@.issuer);
            }
        }
        res
    }
}

impl vstd::std_specs::cmp::PartialEqSpecImpl for CredentialIDData {
    open spec fn obeys_eq_spec() -> bool {
        true
    }

    open spec fn eq_spec(&self, other: &Self) -> bool {
        self@ == other@
    }
}

} // verus!
