//! Verified core of a YubiKey OATH client: the status words, tags and
//! instructions of the OATH applet, the SIMPLE-TLV framing of its messages,
//! credential identifiers, and the decisions a session takes on the replies
//! of the device. Talking to the device is left to the caller, which hands
//! the library the bytes it received and sends the bytes the library builds.
pub mod constants;
pub mod crypto;
pub mod oath_credential;
pub mod oath_credentialid;
pub mod session;
pub mod text;
pub mod tlv;
pub mod transaction;

pub use constants::{
    ErrorResponse, HashAlgo, Instruction, Mask, OathCodeDisplay, OathDigits, OathType,
    SuccessResponse, Tag, DEFAULT_DIGITS, DEFAULT_IMF, DEFAULT_PERIOD, INS_SELECT, OATH_AID,
};
pub use oath_credential::OathCredential;
pub use oath_credentialid::CredentialIDData;
pub use session::{OathSession, RefreshableOathCredential};
pub use tlv::{tlv_to_lists, tlv_to_map, to_tlv, Tlv, TlvIter, TlvZipIter};
pub use transaction::{ApduResponse, Error};
