use vstd::prelude::*;

use crate::crypto::{sha1_digest, sha1_of, sha256_digest, sha256_of, sha512_digest, sha512_of};
use crate::text::{decimal_chars, digits_value, format_decimal, is_ascii_digit, law_padded_decimal, zero_pad};
use crate::tlv::Tlv;

verus! {

/// Instruction byte of the ISO 7816 SELECT command.
pub const INS_SELECT: u8 = 0xa4;

/// Application identifier of the YubiKey OATH applet.
pub const OATH_AID: [u8; 7] = [0xa0, 0x00, 0x00, 0x05, 0x27, 0x21, 0x01];

/// Period, in seconds, of a TOTP credential that names none.
pub const DEFAULT_PERIOD: u32 = 30;

/// Number of digits of a code that names none.
pub const DEFAULT_DIGITS: OathDigits = OathDigits::Six;

/// Initial moving factor of a HOTP credential that names none.
pub const DEFAULT_IMF: u32 = 0;

/// Status words by which the OATH applet reports a failure.
#[derive(Debug, Clone, Copy, PartialEq, Eq, Structural)]
pub enum ErrorResponse {
    NoSpace,
    CommandAborted,
    InvalidInstruction,
    AuthRequired,
    WrongSyntax,
    GenericError,
    NoSuchObject,
}

impl ErrorResponse {
    /// The status word that stands for this failure.
    pub open spec fn status_word(self) -> u16 {
        match self {
            ErrorResponse::NoSpace => 0x6a84,
            ErrorResponse::CommandAborted => 0x6f00,
            ErrorResponse::InvalidInstruction => 0x6d00,
            ErrorResponse::AuthRequired => 0x6982,
            ErrorResponse::WrongSyntax => 0x6a80,
            ErrorResponse::GenericError => 0x6581,
            ErrorResponse::NoSuchObject => 0x6984,
        }
    }

    /// The text by which this failure is shown to a user.
    pub open spec fn description_text(self) -> Seq<char> {
        match self {
            ErrorResponse::NoSpace => "No Space left on device"@,
            ErrorResponse::CommandAborted => "Command aborted"@,
            ErrorResponse::InvalidInstruction => "Invalid instruction"@,
            ErrorResponse::AuthRequired => "Authentication required"@,
            ErrorResponse::WrongSyntax => "Wrong syntax"@,
            ErrorResponse::GenericError => "Generic Error"@,
            ErrorResponse::NoSuchObject => "No such Object"@,
        }
    }

    /// The status word that stands for this failure.
    pub fn status(&self) -> (res: u16)
        ensures
            res == self.status_word(),
    {
        match self {
            ErrorResponse::NoSpace => 0x6a84,
            ErrorResponse::CommandAborted => 0x6f00,
            ErrorResponse::InvalidInstruction => 0x6d00,
            ErrorResponse::AuthRequired => 0x6982,
            ErrorResponse::WrongSyntax => 0x6a80,
            ErrorResponse::GenericError => 0x6581,
            ErrorResponse::NoSuchObject => 0x6984,
        }
    }

    /// The text by which this failure is shown to a user.
    pub fn description(&self) -> (res: &'static str)
        ensures
            res@ == self.description_text(),
    {
        match self {
            ErrorResponse::NoSpace => "No Space left on device",
            ErrorResponse::CommandAborted => "Command aborted",
            ErrorResponse::InvalidInstruction => "Invalid instruction",
            ErrorResponse::AuthRequired => "Authentication required",
            ErrorResponse::WrongSyntax => "Wrong syntax",
            ErrorResponse::GenericError => "Generic Error",
            ErrorResponse::NoSuchObject => "No such Object",
        }
    }

    /// The failure whose status word is `code`, if there is one.
    pub fn any_match(code: u16) -> (res: Option<ErrorResponse>)
        ensures
            match res {
                Some(e) => e.status_word() == code,
                None => forall|e: ErrorResponse| #[trigger] e.status_word() != code,
            },
    {
        if code == 0x6a84 {
            Some(ErrorResponse::NoSpace)
        } else if code == 0x6f00 {
            Some(ErrorResponse::CommandAborted)
        } else if code == 0x6d00 {
            Some(ErrorResponse::InvalidInstruction)
        } else if code == 0x6982 {
            Some(ErrorResponse::AuthRequired)
        } else if code == 0x6a80 {
            Some(ErrorResponse::WrongSyntax)
        } else if code == 0x6581 {
            Some(ErrorResponse::GenericError)
        } else if code == 0x6984 {
            Some(ErrorResponse::NoSuchObject)
        } else {
            None
        }
    }
}

/// Each failure has a status word of its own, so that `any_match` gives
/// back the failure whose status word it is handed.
pub proof fn lemma_error_status_words_distinct(a: ErrorResponse, b: ErrorResponse)
    ensures
        a.status_word() == b.status_word() ==> a == b,
{
}

/// Status words by which the OATH applet reports success.
#[derive(Debug, Clone, Copy, PartialEq, Eq, Structural)]
pub enum SuccessResponse {
    /// More response data waits on the device; its low byte counts it.
    MoreData,
    Okay,
}

impl SuccessResponse {
    /// The status word (for `MoreData`: its first byte) that stands for this outcome.
    pub open spec fn status_word(self) -> u16 {
        match self {
            SuccessResponse::MoreData => 0x61,
            SuccessResponse::Okay => 0x9000,
        }
    }

    /// The status word that stands for this outcome.
    pub fn status(&self) -> (res: u16)
        ensures
            res == self.status_word(),
    {
        match self {
            SuccessResponse::MoreData => 0x61,
            SuccessResponse::Okay => 0x9000,
        }
    }

    /// The outcome whose status word is `code`, if there is one.
    pub fn any_match(code: u16) -> (res: Option<SuccessResponse>)
        ensures
            match res {
                Some(s) => s.status_word() == code,
                None => forall|s: SuccessResponse| #[trigger] s.status_word() != code,
            },
    {
        if code == 0x61 {
            Some(SuccessResponse::MoreData)
        } else if code == 0x9000 {
            Some(SuccessResponse::Okay)
        } else {
            None
        }
    }
}

/// Each success has a status word of its own.
pub proof fn lemma_success_status_words_distinct(a: SuccessResponse, b: SuccessResponse)
    ensures
        a.status_word() == b.status_word() ==> a == b,
{
}

/// Instructions of the OATH applet.
#[derive(Debug, Clone, Copy, PartialEq, Eq, Structural)]
pub enum Instruction {
    Put,
    Delete,
    SetCode,
    Reset,
    Rename,
    List,
    Calculate,
    Validate,
    CalculateAll,
    SendRemaining,
}

impl Instruction {
    /// The INS byte of this instruction.
    pub open spec fn spec_byte(self) -> u8 {
        match self {
            Instruction::Put => 0x01,
            Instruction::Delete => 0x02,
            Instruction::SetCode => 0x03,
            Instruction::Reset => 0x04,
            Instruction::Rename => 0x05,
            Instruction::List => 0xa1,
            Instruction::Calculate => 0xa2,
            Instruction::Validate => 0xa3,
            Instruction::CalculateAll => 0xa4,
            Instruction::SendRemaining => 0xa5,
        }
    }

    /// The INS byte of this instruction.
    pub fn byte(&self) -> (res: u8)
        ensures
            res == self.spec_byte(),
    {
        match self {
            Instruction::Put => 0x01,
            Instruction::Delete => 0x02,
            Instruction::SetCode => 0x03,
            Instruction::Reset => 0x04,
            Instruction::Rename => 0x05,
            Instruction::List => 0xa1,
            Instruction::Calculate => 0xa2,
            Instruction::Validate => 0xa3,
            Instruction::CalculateAll => 0xa4,
            Instruction::SendRemaining => 0xa5,
        }
    }
}

/// Bit masks of the byte that holds a credential's type and algorithm.
#[derive(Debug, Clone, Copy, PartialEq, Eq, Structural)]
pub enum Mask {
    Algo,
    Type,
}

impl Mask {
    /// The bits of this mask.
    pub open spec fn spec_bits(self) -> u8 {
        match self {
            Mask::Algo => 0x0f,
            Mask::Type => 0xf0,
        }
    }

    /// The bits of this mask.
    pub fn bits(&self) -> (res: u8)
        ensures
            res == self.spec_bits(),
    {
        match self {
            Mask::Algo => 0x0f,
            Mask::Type => 0xf0,
        }
    }
}

/// Tags of the SIMPLE-TLV objects that the OATH applet exchanges.
#[derive(Debug, Clone, Copy, PartialEq, Eq, Structural)]
pub enum Tag {
    Name,
    NameList,
    Key,
    Challenge,
    Response,
    TruncatedResponse,
    Hotp,
    Property,
    Version,
    Imf,
    Algorithm,
    Touch,
}

impl Tag {
    /// The tag byte.
    pub open spec fn spec_byte(self) -> u8 {
        match self {
            Tag::Name => 0x71,
            Tag::NameList => 0x72,
            Tag::Key => 0x73,
            Tag::Challenge => 0x74,
            Tag::Response => 0x75,
            Tag::TruncatedResponse => 0x76,
            Tag::Hotp => 0x77,
            Tag::Property => 0x78,
            Tag::Version => 0x79,
            Tag::Imf => 0x7a,
            Tag::Algorithm => 0x7b,
            Tag::Touch => 0x7c,
        }
    }

    /// The tag byte.
    pub fn byte(&self) -> (res: u8)
        ensures
            res == self.spec_byte(),
            0x71 <= res <= 0x7c,
    {
        match self {
            Tag::Name => 0x71,
            Tag::NameList => 0x72,
            Tag::Key => 0x73,
            Tag::Challenge => 0x74,
            Tag::Response => 0x75,
            Tag::TruncatedResponse => 0x76,
            Tag::Hotp => 0x77,
            Tag::Property => 0x78,
            Tag::Version => 0x79,
            Tag::Imf => 0x7a,
            Tag::Algorithm => 0x7b,
            Tag::Touch => 0x7c,
        }
    }
}

/// Hash algorithms of OATH credentials.
#[derive(Debug, Clone, Copy, PartialEq, Eq, Structural)]
pub enum HashAlgo {
    Sha1,
    Sha256,
    Sha512,
}

impl HashAlgo {
    /// The byte by which the applet names this algorithm.
    pub open spec fn spec_byte(self) -> u8 {
        match self {
            HashAlgo::Sha1 => 0x01,
            HashAlgo::Sha256 => 0x02,
            HashAlgo::Sha512 => 0x03,
        }
    }

    /// Size in bytes of this algorithm's digest.
    pub open spec fn spec_digest_size(self) -> nat {
        match self {
            HashAlgo::Sha1 => 20,
            HashAlgo::Sha256 => 32,
            HashAlgo::Sha512 => 64,
        }
    }

    /// The digest of `m` under this algorithm.
    pub open spec fn spec_hash(self, m: Seq<u8>) -> Seq<u8> {
        match self {
            HashAlgo::Sha1 => sha1_of(m),
            HashAlgo::Sha256 => sha256_of(m),
            HashAlgo::Sha512 => sha512_of(m),
        }
    }

    /// The byte by which the applet names this algorithm.
    pub fn byte(&self) -> (res: u8)
        ensures
            res == self.spec_byte(),
    {
        match self {
            HashAlgo::Sha1 => 0x01,
            HashAlgo::Sha256 => 0x02,
            HashAlgo::Sha512 => 0x03,
        }
    }

    /// Digest output size in number of bytes.
    pub fn digest_size(&self) -> (res: usize)
        ensures
            res == self.spec_digest_size(),
    {
        match self {
            HashAlgo::Sha1 => 20,
            HashAlgo::Sha256 => 32,
            HashAlgo::Sha512 => 64,
        }
    }

    /// Hashes `m` with this algorithm.
    pub fn hash(&self, m: &[u8]) -> (res: Vec<u8>)
        ensures
            res@ == self.spec_hash(m@),
            res@.len() == self.spec_digest_size(),
    {
        match self {
            HashAlgo::Sha1 => sha1_digest(m),
            HashAlgo::Sha256 => sha256_digest(m),
            HashAlgo::Sha512 => sha512_digest(m),
        }
    }
}

/// Kinds of OATH credential: time based or counter based.
#[derive(Debug, Clone, Copy, PartialEq, Eq, Hash, Structural)]
pub enum OathType {
    Totp,
    Hotp,
}

impl OathType {
    /// The byte by which the applet names this kind.
    pub open spec fn spec_byte(self) -> u8 {
        match self {
            OathType::Totp => 0x10,
            OathType::Hotp => 0x20,
        }
    }

    /// The byte by which the applet names this kind.
    pub fn byte(&self) -> (res: u8)
        ensures
            res == self.spec_byte(),
    {
        match self {
            OathType::Totp => 0x10,
            OathType::Hotp => 0x20,
        }
    }
}

/// Lengths of an OATH code.
#[derive(Debug, Clone, Copy, PartialEq, Eq, Structural)]
pub enum OathDigits {
    Six,
    Eight,
}

impl OathDigits {
    /// The number of digits.
    pub open spec fn spec_count(self) -> u8 {
        match self {
            OathDigits::Six => 6,
            OathDigits::Eight => 8,
        }
    }

    /// The number of digits.
    pub fn count(&self) -> (res: u8)
        ensures
            res == self.spec_count(),
    {
        match self {
            OathDigits::Six => 6,
            OathDigits::Eight => 8,
        }
    }
}

/// The big-endian number held in four bytes.
pub open spec fn be_u32(b0: u8, b1: u8, b2: u8, b3: u8) -> int {
    b0 * 0x1000000 + b1 * 0x10000 + b2 * 0x100 + b3
}

/// Whether the SIMPLE-TLV object `t` holds a code: tagged as a truncated
/// response, with a five-byte value.
pub open spec fn holds_code(t: (u8, Seq<u8>)) -> bool {
    t.0 == Tag::TruncatedResponse.spec_byte() && t.1.len() == 5
}

/// Whether `c` is the code that reading the object `t` gives: none when `t`
/// holds no code, else the digit count of its first byte and the big-endian
/// number of the other four.
pub open spec fn is_code_of(c: Option<OathCodeDisplay>, t: (u8, Seq<u8>)) -> bool {
    match c {
        Some(c) => holds_code(t) && c.spec_digits() == t.1[0] && c.spec_code() == be_u32(
            t.1[1],
            t.1[2],
            t.1[3],
            t.1[4],
        ),
        None => !holds_code(t),
    }
}

/// How a code is read from an object: there is one exactly when the object
/// carries the truncated-response tag (`76`) and five bytes; its digit count
/// is the first byte and its number the other four, big-endian.
pub proof fn law_code_of_object(c: Option<OathCodeDisplay>, t: (u8, Seq<u8>))
    requires
        is_code_of(c, t),
    ensures
        c is Some <==> t.0 == 0x76u8 && t.1.len() == 5,
        c matches Some(x) ==> x.spec_digits() == t.1[0] && x.spec_code() == t.1[1] as int
            * 0x1000000 + t.1[2] as int * 0x10000 + t.1[3] as int * 0x100 + t.1[4] as int,
{
}

/// How a code is shown: ASCII digits that spell its number, at least as many
/// as its digit count, with no leading `0` beyond that count.
pub proof fn law_code_display(c: OathCodeDisplay)
    ensures
        c.display_text().len() >= c.spec_digits(),
        forall|i: int|
            0 <= i < c.display_text().len() ==> is_ascii_digit(#[trigger] c.display_text()[i]),
        digits_value(c.display_text()) == c.spec_code(),
        c.display_text().len() > c.spec_digits() && c.display_text().len() > 1
            ==> c.display_text()[0] != '0',
{
    law_padded_decimal(c.spec_code() as nat, c.spec_digits() as nat);
}

/// A code calculated by the device, with the number of digits to show.
#[derive(Debug, PartialEq, Hash, Eq, Copy, Clone, Structural)]
pub struct OathCodeDisplay {
    code: u32,
    digits: u8,
}

impl OathCodeDisplay {
    /// The code.
    pub closed spec fn spec_code(self) -> u32 {
        self.code
    }

    /// The number of digits to show.
    pub closed spec fn spec_digits(self) -> u8 {
        self.digits
    }

    /// The text by which the code is shown: its decimal digits, padded with
    /// leading zeros to the number of digits.
    pub open spec fn display_text(self) -> Seq<char> {
        zero_pad(decimal_chars(self.spec_code() as nat), self.spec_digits() as nat)
    }

    /// The code.
    pub fn code(&self) -> (res: u32)
        ensures
            res == self.spec_code(),
    {
        self.code
    }

    /// The number of digits to show.
    pub fn digits(&self) -> (res: u8)
        ensures
            res == self.spec_digits(),
    {
        self.digits
    }

    /// Reads a truncated response: the number of digits, then the code as
    /// a big-endian 32-bit number.
    pub fn new(bytes: &[u8; 5]) -> (res: Self)
        ensures
            res.spec_digits() == bytes@[0],
            res.spec_code() == be_u32(bytes@[1], bytes@[2], bytes@[3], bytes@[4]),
    {
        let b0: u32 = bytes[1] as u32;
        let b1: u32 = bytes[2] as u32;
        let b2: u32 = bytes[3] as u32;
        let b3: u32 = bytes[4] as u32;
        assert(b0 * 0x1000000 + b1 * 0x10000 + b2 * 0x100 + b3 <= 0xffff_ffff) by (nonlinear_arith)
            requires
                b0 <= 255,
                b1 <= 255,
                b2 <= 255,
                b3 <= 255,
        ;
        let code: u32 = b0 * 0x1000000 + b1 * 0x10000 + b2 * 0x100 + b3;
        OathCodeDisplay { digits: bytes[0], code }
    }

    /// The code of a TLV object tagged as a truncated response whose value
    /// is five bytes long; `None` for any other object.
    pub fn from_tlv(tlv: Tlv) -> (res: Option<Self>)
        ensures
            is_code_of(res, tlv@),
    {
        if tlv.tag == Tag::TruncatedResponse.byte() && tlv.value.len() == 5 {
            let bytes: [u8; 5] = [tlv.value[0], tlv.value[1], tlv.value[2], tlv.value[3], tlv.value[4]];
            Some(OathCodeDisplay::new(&bytes))
        } else {
            None
        }
    }

    /// The code as shown to a user: its decimal digits, padded with leading
    /// zeros to the number of digits.
    pub fn to_display_string(&self) -> (res: String)
        ensures
            res@ == self.display_text(),
    {
        format_decimal(self.code, self.digits as usize)
    }
}

} // verus!
