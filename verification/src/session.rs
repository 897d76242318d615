use std::collections::HashMap;
use vstd::prelude::*;
use vstd::slice::slice_to_vec;
use vstd::string::{StringExecFns, StringSliceAdditionalSpecFns};

use crate::constants::{holds_code, is_code_of, HashAlgo, OathCodeDisplay, OathType, Tag};
use crate::crypto::{
    base64_url_encode, base64_url_nopad, hmac_sha1_of, hmac_sha1_tag, pbkdf2_sha1_16,
    pbkdf2_sha1_16_of, sha256_digest, sha256_of,
};
use crate::oath_credential::OathCredential;
use crate::oath_credentialid::{
    cred_id_bytes, cred_id_from_bytes, cred_id_parses, CredentialIDData, CredentialIDDataView,
};
use crate::tlv::{
    lemma_tlv_map_keys, lemma_tlv_map_last_wins, lemma_tlv_roundtrip, simple_tlv_bytes, tlv_items, tlv_map, tlv_pairs, tlv_to_map, to_tlv, TlvIter,
    TlvZipIter,
};
use crate::transaction::Error;

verus! {

broadcast use vstd::std_specs::hash::group_hash_axioms;

/// Number of PBKDF2 rounds by which a key is derived from a passphrase.
pub const KEY_DERIVATION_ROUNDS: u32 = 1000;

/// Period, in seconds, of the challenge by which all TOTP codes are
/// calculated at once.
pub const CHALLENGE_PERIOD: u64 = 30;

/// The end of the validity of a HOTP code: the largest signed 64-bit number.
pub const HOTP_VALID_TO: u64 = 0x7FFF_FFFF_FFFF_FFFF;

/// The eight big-endian bytes of `v`.
pub open spec fn be_u64_bytes(v: u64) -> Seq<u8> {
    seq![
        (v / 0x100000000000000) as u8,
        ((v / 0x1000000000000) % 256) as u8,
        ((v / 0x10000000000) % 256) as u8,
        ((v / 0x100000000) % 256) as u8,
        ((v / 0x1000000) % 256) as u8,
        ((v / 0x10000) % 256) as u8,
        ((v / 0x100) % 256) as u8,
        (v % 256) as u8,
    ]
}

/// The number that eight big-endian bytes spell.
pub open spec fn be_value(b: Seq<u8>) -> int
    decreases b.len(),
{
    if b.len() == 0 {
        0
    } else {
        be_value(b.drop_last()) * 256 + b.last()
    }
}

/// An identifier for a device: the first 16 bytes of the SHA-256 digest of
/// its salt, in URL-safe base64 without padding.
pub fn _get_device_id(salt: Vec<u8>) -> (res: String)
    ensures
        res@ == base64_url_nopad(sha256_of(salt@).take(16)),
{
    let result = sha256_digest(salt.as_slice());
    let mut hash_16_bytes: Vec<u8> = Vec::new();
    let mut i: usize = 0;
    while i < 16
        invariant
            i <= 16,
            result@.len() == 32,
            hash_16_bytes@ == result@.take(i as int),
        decreases 16 - i,
    {
        hash_16_bytes.push(result[i]);
        assert(result@.take(i + 1) =~= result@.take(i as int).push(result@[i as int]));
        i = i + 1;
    }
    base64_url_encode(hash_16_bytes.as_slice())
}

/// The HMAC-SHA1 tag of `message` under `key`.
pub fn _hmac_sha1(key: &[u8], message: &[u8]) -> (res: Vec<u8>)
    ensures
        res@ == hmac_sha1_of(key@, message@),
        res@.len() == 20,
{
    hmac_sha1_tag(key, message)
}

/// The 16-byte key that PBKDF2 with HMAC-SHA1 and 1000 rounds derives from
/// `passphrase` (in UTF-8) and `salt`.
pub fn _derive_key(salt: &[u8], passphrase: &str) -> (res: Vec<u8>)
    ensures
        res@ == pbkdf2_sha1_16_of(passphrase.spec_bytes(), salt@, KEY_DERIVATION_ROUNDS),
        res@.len() == 16,
{
    pbkdf2_sha1_16(passphrase.as_bytes(), salt, KEY_DERIVATION_ROUNDS)
}

/// The HMAC key that `key` is shortened to under `algo`: its digest when it
/// is longer than the digest, else the key itself.
pub open spec fn shortened_key(key: Seq<u8>, algo: HashAlgo) -> Seq<u8> {
    if key.len() > algo.spec_digest_size() {
        algo.spec_hash(key)
    } else {
        key
    }
}

/// An HMAC key longer than the digest of `algo` is replaced by its digest;
/// a shorter one is kept. Either way the result is no longer than the digest.
pub fn _hmac_shorten_key(key: &[u8], algo: HashAlgo) -> (res: Vec<u8>)
    ensures
        res@ == shortened_key(key@, algo),
        res@.len() <= algo.spec_digest_size(),
{
    if key.len() > algo.digest_size() {
        algo.hash(key)
    } else {
        slice_to_vec(key)
    }
}

/// Shortening a key that shortening gave changes nothing: whatever
/// `_hmac_shorten_key` hands back (a shortened key, no longer than the
/// digest) is kept as it is when shortened again.
pub proof fn lemma_shorten_key_twice(key: Seq<u8>, algo: HashAlgo, once: Seq<u8>)
    requires
        once == shortened_key(key, algo),
        once.len() <= algo.spec_digest_size(),
    ensures
        shortened_key(once, algo) == once,
{
}

/// The challenge for the moment `timestamp`: the number of whole periods
/// since the epoch, as eight big-endian bytes.
pub fn _get_challenge(timestamp: u64, period: u64) -> (res: [u8; 8])
    requires
        period > 0,
    ensures
        res@ == be_u64_bytes(timestamp / period),
{
    let v: u64 = timestamp / period;
    [
        (v / 0x100000000000000) as u8,
        ((v / 0x1000000000000) % 256) as u8,
        ((v / 0x10000000000) % 256) as u8,
        ((v / 0x100000000) % 256) as u8,
        ((v / 0x1000000) % 256) as u8,
        ((v / 0x10000) % 256) as u8,
        ((v / 0x100) % 256) as u8,
        (v % 256) as u8,
    ]
}

/// The challenge for the moment `timestamp` (seconds since the epoch) with
/// the 30-second period.
pub fn time_challenge(timestamp: u64) -> (res: [u8; 8])
    ensures
        res@ == be_u64_bytes(timestamp / CHALLENGE_PERIOD),
{
    _get_challenge(timestamp, CHALLENGE_PERIOD)
}

/// A copy of `data`.
pub fn clone_with_lifetime(data: &[u8]) -> (res: Vec<u8>)
    ensures
        res@ == data@,
{
    slice_to_vec(data)
}

/// Whether the validity frame of a code for `id` at `timestamp` can be
/// computed: a TOTP credential needs a period above zero, and the end of the
/// frame must fit in 64 bits.
pub open spec fn frame_defined(id: CredentialIDDataView, timestamp: u64) -> bool {
    id.oath_type == OathType::Totp ==> id.period > 0 && ((timestamp as int) / (id.period as int) + 1) * id.period <= u64::MAX
}

/// The span in which a code for `id` calculated at `timestamp` is valid:
/// for TOTP the period that holds `timestamp`, from its start to the start
/// of the next; for HOTP from `timestamp` on, to the largest signed 64-bit
/// number.
pub open spec fn validity_frame(id: CredentialIDDataView, timestamp: u64) -> (int, int) {
    if id.oath_type == OathType::Totp {
        let step = (timestamp as int) / (id.period as int);
        (step * id.period, (step + 1) * id.period)
    } else {
        (timestamp as int, HOTP_VALID_TO as int)
    }
}

/// The validity frame of a TOTP code holds the moment it was calculated at,
/// is one period long and starts at a multiple of the period.
pub proof fn lemma_totp_frame(id: CredentialIDDataView, timestamp: u64)
    requires
        id.oath_type == OathType::Totp,
        id.period > 0,
    ensures
        validity_frame(id, timestamp).0 <= timestamp < validity_frame(id, timestamp).1,
        validity_frame(id, timestamp).1 - validity_frame(id, timestamp).0 == id.period,
        validity_frame(id, timestamp).0 % (id.period as int) == 0,
{
    let p = id.period as int;
    let t = timestamp as int;
    let step = t / p;
    assert(step * p <= t < (step + 1) * p) by (nonlinear_arith)
        requires
            p > 0,
            t >= 0,
            step == t / p,
    ;
    assert((step + 1) * p - step * p == p) by (nonlinear_arith);
    assert((step * p) % p == 0) by (nonlinear_arith)
        requires
            p > 0,
    ;
}

/// A code is valid at the moment it was calculated: always for TOTP, and
/// for HOTP up to the end of the signed 64-bit range.
pub proof fn lemma_fresh_code_valid(id: CredentialIDDataView, timestamp: u64)
    requires
        frame_defined(id, timestamp),
        id.oath_type == OathType::Hotp ==> timestamp <= HOTP_VALID_TO,
    ensures
        validity_frame(id, timestamp).0 <= timestamp <= validity_frame(id, timestamp).1,
{
    if id.oath_type == OathType::Totp {
        lemma_totp_frame(id, timestamp);
    }
}

/// The eight bytes of a challenge spell the number of periods it was made from.
pub proof fn lemma_be_u64_bytes_value(v: u64)
    ensures
        be_value(be_u64_bytes(v)) == v,
{
    let b = be_u64_bytes(v);
    assert(v as int == (v / 0x100000000000000) * 0x100000000000000 + ((v / 0x1000000000000) % 256)
        * 0x1000000000000 + ((v / 0x10000000000) % 256) * 0x10000000000 + ((v / 0x100000000) % 256)
        * 0x100000000 + ((v / 0x1000000) % 256) * 0x1000000 + ((v / 0x10000) % 256) * 0x10000 + ((v
        / 0x100) % 256) * 0x100 + (v % 256)) by (bit_vector);
    reveal_with_fuel(be_value, 9);
    assert(b.drop_last().drop_last().drop_last().drop_last().drop_last().drop_last().drop_last().drop_last() =~= Seq::<u8>::empty());
}

/// A credential with the last code calculated for it and the span in which
/// that code is valid. `P` is what can calculate a fresh code.
pub struct RefreshableOathCredential<P> {
    pub cred: OathCredential,
    pub code: Option<OathCodeDisplay>,
    pub valid_from: u64,
    pub valid_to: u64,
    refresh_provider: P,
}

impl<P> RefreshableOathCredential<P> {
    /// What can calculate a fresh code.
    pub closed spec fn spec_refresh_provider(&self) -> P {
        self.refresh_provider
    }

    /// The credential.
    pub closed spec fn spec_cred(&self) -> OathCredential {
        self.cred
    }

    /// The last code calculated, if any.
    pub closed spec fn spec_code(&self) -> Option<OathCodeDisplay> {
        self.code
    }

    /// The start of the span in which the code is valid.
    pub closed spec fn spec_valid_from(&self) -> u64 {
        self.valid_from
    }

    /// The end of the span in which the code is valid.
    pub closed spec fn spec_valid_to(&self) -> u64 {
        self.valid_to
    }

    /// A credential with no code yet, valid nowhere but at time 0.
    pub fn new(cred: OathCredential, refresh_provider: P) -> (res: Self)
        ensures
            res.spec_cred() == cred,
            res.spec_code() is None,
            res.spec_valid_from() == 0,
            res.spec_valid_to() == 0,
            res.spec_refresh_provider() == refresh_provider,
    {
        RefreshableOathCredential { cred, code: None, valid_from: 0, valid_to: 0, refresh_provider }
    }

    /// What can calculate a fresh code.
    pub fn refresh_provider(&self) -> (res: &P)
        ensures
            *res == self.spec_refresh_provider(),
    {
        &self.refresh_provider
    }

    /// Takes a code calculated at `timestamp` (seconds since the epoch) and
    /// the span in which it is valid.
    pub fn force_update(&mut self, code: Option<OathCodeDisplay>, timestamp: u64)
        requires
            frame_defined(old(self).spec_cred().id_data@, timestamp),
        ensures
            final(self).spec_cred() == old(self).spec_cred(),
            final(self).spec_refresh_provider() == old(self).spec_refresh_provider(),
            final(self).spec_code() == code,
            final(self).spec_valid_from() == validity_frame(old(self).spec_cred().id_data@, timestamp).0,
            final(self).spec_valid_to() == validity_frame(old(self).spec_cred().id_data@, timestamp).1,
    {
        let (valid_from, valid_to) = self.format_validity_time_frame(timestamp);
        self.code = code;
        self.valid_from = valid_from;
        self.valid_to = valid_to;
    }

    /// Whether the code is valid at `current_time` (seconds since the epoch).
    pub fn is_valid_at(&self, current_time: u64) -> (res: bool)
        ensures
            res == (self.spec_valid_from() <= current_time && current_time <= self.spec_valid_to()),
    {
        self.valid_from <= current_time && current_time <= self.valid_to
    }

    /// The span in which a code calculated at `timestamp` is valid (see
    /// `validity_frame`).
    pub fn format_validity_time_frame(&self, timestamp: u64) -> (res: (u64, u64))
        requires
            frame_defined(self.spec_cred().id_data@, timestamp),
        ensures
            res.0 == validity_frame(self.spec_cred().id_data@, timestamp).0,
            res.1 == validity_frame(self.spec_cred().id_data@, timestamp).1,
    {
        match self.cred.id_data.oath_type {
            OathType::Totp => {
                let period: u64 = self.cred.id_data.period as u64;
                let time_step: u64 = timestamp / period;
                assert(time_step + 1 <= (time_step + 1) * period && time_step * period <= (time_step
                    + 1) * period) by (nonlinear_arith)
                    requires
                        period >= 1,
                ;
                let valid_from: u64 = time_step * period;
                let valid_to: u64 = (time_step + 1) * period;
                (valid_from, valid_to)
            },
            OathType::Hotp => (timestamp, HOTP_VALID_TO),
        }
    }

    /// `format_validity_time_frame` where the span can be computed; `None`
    /// where it cannot.
    pub fn checked_validity_time_frame(&self, timestamp: u64) -> (res: Option<(u64, u64)>)
        ensures
            res is Some <==> frame_defined(self.spec_cred().id_data@, timestamp),
            res matches Some(f) ==> f.0 == validity_frame(self.spec_cred().id_data@, timestamp).0
                && f.1 == validity_frame(self.spec_cred().id_data@, timestamp).1,
    {
        if self.cred.id_data.oath_type == OathType::Totp {
            let period: u64 = self.cred.id_data.period as u64;
            if period == 0 {
                return None;
            }
            let time_step: u64 = timestamp / period;
            assert(time_step * period <= timestamp) by (nonlinear_arith)
                requires
                    period > 0,
                    time_step == timestamp / period,
            ;
            assert((time_step + 1) * period == time_step * period + period) by (nonlinear_arith);
            if time_step * period > u64::MAX - period {
                return None;
            }
        }
        Some(self.format_validity_time_frame(timestamp))
    }

    /// The credential as shown to a user: its identifier, then `: ` and the
    /// code when there is one.
    pub fn to_display_string(&self) -> (res: String)
        ensures
            res@ == match self.spec_code() {
                Some(c) => self.spec_cred().id_data.display_text() + ": "@ + c.display_text(),
                None => self.spec_cred().id_data.display_text(),
            },
    {
        let mut s = self.cred.id_data.to_display_string();
        if let Some(c) = self.code {
            s.append(": ");
            let code = c.to_display_string();
            s.append(code.as_str());
        }
        s
    }
}

/// The value of the last object tagged `tag` in the objects of `info`; empty
/// when there is none.
pub open spec fn info_value(info: Seq<u8>, tag: u8) -> Seq<u8> {
    let m = tlv_map(tlv_items(info));
    if m.contains_key(tag) {
        m[tag]
    } else {
        Seq::<u8>::empty()
    }
}

/// What the session keeps of a field of the reply to SELECT: the value of the
/// last object under the field's tag, or nothing where no object has that
/// tag.
pub proof fn law_select_field(info: Seq<u8>, tag: u8, i: int)
    ensures
        ({
            let items = tlv_items(info);
            &&& 0 <= i < items.len() && items[i].0 == tag && (forall|j: int|
                i < j < items.len() ==> #[trigger] items[j].0 != tag) ==> info_value(info, tag)
                == items[i].1
            &&& (forall|j: int| 0 <= j < items.len() ==> #[trigger] items[j].0 != tag)
                ==> info_value(info, tag) == Seq::<u8>::empty()
        }),
{
    let items = tlv_items(info);
    lemma_tlv_map_keys(items, tag);
    if 0 <= i < items.len() && items[i].0 == tag && (forall|j: int|
        i < j < items.len() ==> #[trigger] items[j].0 != tag) {
        lemma_tlv_map_last_wins(items, i);
    }
}

/// The value stored under `tag`, copied; empty when there is none.
fn value_or_empty(map: &HashMap<u8, Vec<u8>>, tag: u8) -> (res: Vec<u8>)
    ensures
        res@ == if map@.contains_key(tag) {
            map@[tag]@
        } else {
            Seq::<u8>::empty()
        },
{
    match map.get(&tag) {
        Some(v) => clone_with_lifetime(v.as_slice()),
        None => Vec::new(),
    }
}

/// A session with the OATH applet of one device: what the applet told of
/// itself when selected, and `T`, the channel to the device.
pub struct OathSession<T> {
    version: Vec<u8>,
    salt: Vec<u8>,
    challenge: Vec<u8>,
    transaction_context: T,
    pub name: String,
}

impl<T> OathSession<T> {
    /// The applet's version.
    pub closed spec fn spec_version(&self) -> Seq<u8> {
        self.version@
    }

    /// The salt the applet reported.
    pub closed spec fn spec_salt(&self) -> Seq<u8> {
        self.salt@
    }

    /// The challenge the applet reported.
    pub closed spec fn spec_challenge(&self) -> Seq<u8> {
        self.challenge@
    }

    /// The channel to the device.
    pub closed spec fn spec_transaction_context(&self) -> T {
        self.transaction_context
    }

    /// The name of the device.
    pub closed spec fn spec_name(&self) -> Seq<char> {
        self.name@
    }

    /// A session on the device `name`, from the reply `info_buffer` of the
    /// applet to SELECT: the version, salt and challenge are the values
    /// tagged version, name and challenge (empty when missing).
    pub fn from_select_response(name: &str, info_buffer: Vec<u8>, transaction_context: T) -> (res:
        Self)
        ensures
            res.spec_version() == info_value(info_buffer@, Tag::Version.spec_byte()),
            res.spec_salt() == info_value(info_buffer@, Tag::Name.spec_byte()),
            res.spec_challenge() == info_value(info_buffer@, Tag::Challenge.spec_byte()),
            res.spec_name() == name@,
            res.spec_transaction_context() == transaction_context,
    {
        let info_map = tlv_to_map(info_buffer);
        OathSession {
            version: value_or_empty(&info_map, Tag::Version.byte()),
            salt: value_or_empty(&info_map, Tag::Name.byte()),
            challenge: value_or_empty(&info_map, Tag::Challenge.byte()),
            name: String::from_str(name),
            transaction_context,
        }
    }

    /// The applet's version.
    pub fn get_version(&self) -> (res: &[u8])
        ensures
            res@ == self.spec_version(),
    {
        self.version.as_slice()
    }

    /// The channel to the device.
    pub fn transaction_context(&self) -> (res: &T)
        ensures
            *res == self.spec_transaction_context(),
    {
        &self.transaction_context
    }

    /// The data of the CALCULATE command for `cred` at `timestamp` (seconds
    /// since the epoch): the credential's identifier, and for a TOTP
    /// credential the challenge of its period. Refused when `cred` lives on
    /// another device.
    pub fn calculate_request(&self, cred: &OathCredential, timestamp: u64) -> (res: Result<
        Vec<u8>,
        Error,
    >)
        requires
            self.spec_name() == cred.device_id@ ==> cred_id_bytes(cred.id_data@).len() <= 65536 && (
            cred.id_data.oath_type == OathType::Totp ==> cred.id_data.period > 0),
        ensures
            self.spec_name() != cred.device_id@ ==> (res matches Err(Error::DeviceMismatch)),
            self.spec_name() == cred.device_id@ ==> (res matches Ok(data) && data@
                == calculate_data(cred.id_data@, timestamp)),
    {
        if !self.name.eq(&cred.device_id) {
            return Err(Error::DeviceMismatch);
        }
        let mut data = cred.id_data.as_tlv();
        if cred.id_data.oath_type == OathType::Totp {
            let challenge = _get_challenge(timestamp, cred.id_data.period as u64);
            let mut challenge_tlv = to_tlv(Tag::Challenge, &challenge);
            data.append(&mut challenge_tlv);
        }
        Ok(data)
    }

    /// The credentials of a reply to CALCULATE ALL, with their codes,
    /// valid from `timestamp` (seconds since the epoch): the reply's objects
    /// taken two by two, an identifier and then a code (or the tag of a
    /// credential that needs a touch, or of a HOTP credential). `None` where
    /// an identifier cannot be read or the validity of its code cannot be
    /// computed.
    pub fn parse_calculate_all_response<'a>(&'a self, resp: Vec<u8>, timestamp: u64) -> (res:
        Option<Vec<RefreshableOathCredential<&'a OathSession<T>>>>)
        ensures
            ({
                let pairs = tlv_pairs(tlv_items(resp@));
                &&& res is Some <==> forall|i: int|
                    0 <= i < pairs.len() ==> #[trigger] pair_readable(pairs[i], timestamp)
                &&& res matches Some(v) ==> {
                    &&& v@.len() == pairs.len()
                    &&& forall|i: int|
                        0 <= i < v@.len() ==> #[trigger] read_from_pair(
                            v@[i],
                            self.spec_name(),
                            pairs[i],
                            timestamp,
                        ) && v@[i].spec_refresh_provider() == self
                }
            }),
    {
        let ghost all_pairs = tlv_pairs(tlv_items(resp@));
        let mut key_buffer: Vec<RefreshableOathCredential<&'a OathSession<T>>> = Vec::new();
        let mut iter = TlvZipIter::from_vec(resp);
        let ghost mut done: Seq<((u8, Seq<u8>), (u8, Seq<u8>))> = seq![];
        assert(done + tlv_pairs(tlv_items(iter@)) =~= all_pairs);
        loop
            invariant_except_break
                all_pairs == done + tlv_pairs(tlv_items(iter@)),
            invariant
                all_pairs == tlv_pairs(tlv_items(resp@)),
                key_buffer@.len() == done.len(),
                forall|i: int| 0 <= i < done.len() ==> #[trigger] pair_readable(done[i], timestamp),
                forall|i: int|
                    0 <= i < done.len() ==> #[trigger] read_from_pair(
                        key_buffer@[i],
                        self.spec_name(),
                        done[i],
                        timestamp,
                    ) && key_buffer@[i].spec_refresh_provider() == self,
            ensures
                all_pairs == done,
            decreases iter@.len(),
        {
            let ghost before = iter@;
            let (cred_id, meta) = match iter.next() {
                Some(p) => p,
                None => {
                    assert(done + Seq::<((u8, Seq<u8>), (u8, Seq<u8>))>::empty() =~= done);
                    break ;
                },
            };
            proof {
                assert(iter@.len() < before.len());
                assert(done.len() < all_pairs.len());
                assert(all_pairs[done.len() as int] == (cred_id@, meta@)) by {
                    assert((done + tlv_pairs(tlv_items(before)))[done.len() as int] == tlv_pairs(
                        tlv_items(before),
                    )[0]);
                }
            }
            let touch = meta.tag == Tag::Touch.byte();
            if CredentialIDData::try_from_bytes(cred_id.value.as_slice(), meta.tag).is_none() {
                proof {
                    assert(!pair_readable(all_pairs[done.len() as int], timestamp));
                }
                return None;
            }
            let id_data = CredentialIDData::from_tlv(cred_id.value.as_slice(), meta.tag);
            let code = OathCodeDisplay::from_tlv(meta);
            let cred = OathCredential { device_id: self.name.clone(), id_data, touch_required: touch };
            let mut refreshable_cred = RefreshableOathCredential::new(cred, self);
            if refreshable_cred.checked_validity_time_frame(timestamp).is_none() {
                proof {
                    assert(!pair_readable(all_pairs[done.len() as int], timestamp));
                }
                return None;
            }
            refreshable_cred.force_update(code, timestamp);
            key_buffer.push(refreshable_cred);
            proof {
                let p = (cred_id@, meta@);
                assert(pair_readable(p, timestamp));
                assert(read_from_pair(key_buffer@[done.len() as int], self.spec_name(), p, timestamp));
                assert((done.push(p) + tlv_pairs(tlv_items(iter@))) =~= (done + (seq![p] + tlv_pairs(tlv_items(iter@)))));
                done = done.push(p);
            }
        }
        Some(key_buffer)
    }
}

/// The data of the CALCULATE command for the credential `id` at
/// `timestamp`: its identifier under the name tag, then, for TOTP, the
/// challenge of its period under the challenge tag.
pub open spec fn calculate_data(id: CredentialIDDataView, timestamp: u64) -> Seq<u8> {
    simple_tlv_bytes(Tag::Name.spec_byte(), cred_id_bytes(id)) + if id.oath_type == OathType::Totp {
        simple_tlv_bytes(Tag::Challenge.spec_byte(), be_u64_bytes(timestamp / (id.period as u64)))
    } else {
        Seq::<u8>::empty()
    }
}

/// What the CALCULATE command carries: the credential's identifier under the
/// name tag (`71`) and, for a TOTP credential only, an eight-byte challenge
/// under the challenge tag (`74`) that counts the whole periods of that
/// credential's own period up to `timestamp`.
pub proof fn law_calculate_data_objects(id: CredentialIDDataView, timestamp: u64)
    requires
        cred_id_bytes(id).len() <= 65535,
        id.oath_type == OathType::Totp ==> id.period > 0,
    ensures
        id.oath_type == OathType::Hotp ==> tlv_items(calculate_data(id, timestamp)) == seq![
            (0x71u8, cred_id_bytes(id)),
        ],
        id.oath_type == OathType::Totp ==> {
            let items = tlv_items(calculate_data(id, timestamp));
            &&& items.len() == 2
            &&& items[0] == (0x71u8, cred_id_bytes(id))
            &&& items[1].0 == 0x74u8
            &&& items[1].1.len() == 8
            &&& be_value(items[1].1) == timestamp as int / id.period as int
        },
{
    let name = simple_tlv_bytes(0x71u8, cred_id_bytes(id));
    if id.oath_type == OathType::Totp {
        let v: u64 = timestamp / (id.period as u64);
        let challenge = simple_tlv_bytes(0x74u8, be_u64_bytes(v));
        lemma_tlv_roundtrip(0x74u8, be_u64_bytes(v), Seq::<u8>::empty());
        assert(tlv_items(Seq::<u8>::empty()) =~= Seq::<(u8, Seq<u8>)>::empty());
        assert(challenge + Seq::<u8>::empty() =~= challenge);
        lemma_tlv_roundtrip(0x71u8, cred_id_bytes(id), challenge);
        assert(calculate_data(id, timestamp) =~= name + challenge);
        lemma_be_u64_bytes_value(v);
    } else {
        lemma_tlv_roundtrip(0x71u8, cred_id_bytes(id), Seq::<u8>::empty());
        assert(tlv_items(Seq::<u8>::empty()) =~= Seq::<(u8, Seq<u8>)>::empty());
        assert(calculate_data(id, timestamp) =~= name + Seq::<u8>::empty());
    }
}

/// Whether the pair of objects (identifier, code) of a reply to CALCULATE
/// ALL can be read at `timestamp`.
pub open spec fn pair_readable(pair: ((u8, Seq<u8>), (u8, Seq<u8>)), timestamp: u64) -> bool {
    &&& cred_id_parses(pair.0.1, pair.1.0)
    &&& frame_defined(cred_id_from_bytes(pair.0.1, pair.1.0), timestamp)
}

/// Whether `r` is what the pair of objects (identifier, code) of a reply to
/// CALCULATE ALL from the device `device` gives at `timestamp`: the
/// identifier read under the tag of the second object, a touch needed when
/// that tag is the touch tag, the code of the second object, valid in the
/// frame of `timestamp`.
pub open spec fn read_from_pair<P>(
    r: RefreshableOathCredential<P>,
    device: Seq<char>,
    pair: ((u8, Seq<u8>), (u8, Seq<u8>)),
    timestamp: u64,
) -> bool {
    let id = cred_id_from_bytes(pair.0.1, pair.1.0);
    &&& r.spec_cred().device_id@ == device
    &&& r.spec_cred().id_data@ == id
    &&& r.spec_cred().touch_required == (pair.1.0 == Tag::Touch.spec_byte())
    &&& is_code_of(r.spec_code(), pair.1)
    &&& r.spec_valid_from() == validity_frame(id, timestamp).0
    &&& r.spec_valid_to() == validity_frame(id, timestamp).1
}

/// How one credential of a reply to CALCULATE ALL is read from its pair of
/// objects: it belongs to the session's device and needs a touch exactly
/// when its second object carries the touch tag (`7C`). A second object
/// under the HOTP tag (`77`) makes it a HOTP credential that needs no touch,
/// has no code yet, and is valid from `timestamp` to the largest signed
/// 64-bit number; one under the touch tag makes it a TOTP credential with no
/// code yet; a five-byte object under the truncated-response tag (`76`) gives
/// the code: the digit count in its first byte, the number in the other four,
/// big-endian.
pub proof fn law_calculate_all_pair_reading<P>(
    r: RefreshableOathCredential<P>,
    device: Seq<char>,
    pair: ((u8, Seq<u8>), (u8, Seq<u8>)),
    timestamp: u64,
)
    requires
        read_from_pair(r, device, pair, timestamp),
    ensures
        r.spec_cred().device_id@ == device,
        r.spec_cred().touch_required <==> pair.1.0 == 0x7cu8,
        pair.1.0 == 0x77u8 ==> {
            &&& !r.spec_cred().touch_required
            &&& r.spec_cred().id_data@.oath_type == OathType::Hotp
            &&& r.spec_code() is None
            &&& r.spec_valid_from() == timestamp
            &&& r.spec_valid_to() == 0x7FFF_FFFF_FFFF_FFFFu64
        },
        pair.1.0 == 0x7cu8 ==> r.spec_cred().id_data@.oath_type == OathType::Totp
            && r.spec_code() is None,
        pair.1.0 == 0x76u8 && pair.1.1.len() == 5 ==> (r.spec_code() matches Some(c)
            && c.spec_digits() == pair.1.1[0] && c.spec_code() == pair.1.1[1] * 0x1000000int
            + pair.1.1[2] * 0x10000int + pair.1.1[3] * 0x100int + pair.1.1[4]),
{
}

/// The data of the RENAME command: the old identifier, then the new one,
/// each under the name tag.
pub fn rename_request(old: &CredentialIDData, new: &CredentialIDData) -> (res: Vec<u8>)
    requires
        cred_id_bytes(old@).len() <= 65536,
        cred_id_bytes(new@).len() <= 65536,
    ensures
        res@ == simple_tlv_bytes(Tag::Name.spec_byte(), cred_id_bytes(old@)) + simple_tlv_bytes(
            Tag::Name.spec_byte(),
            cred_id_bytes(new@),
        ),
        cred_id_bytes(old@).len() <= 65535 && cred_id_bytes(new@).len() <= 65535 ==> tlv_items(
            res@,
        ) == seq![(0x71u8, cred_id_bytes(old@)), (0x71u8, cred_id_bytes(new@))],
{
    let mut data = old.as_tlv();
    let mut second = new.as_tlv();
    data.append(&mut second);
    proof {
        if cred_id_bytes(old@).len() <= 65535 && cred_id_bytes(new@).len() <= 65535 {
            let second_bytes = simple_tlv_bytes(0x71u8, cred_id_bytes(new@));
            lemma_tlv_roundtrip(0x71u8, cred_id_bytes(new@), Seq::<u8>::empty());
            assert(second_bytes + Seq::<u8>::empty() =~= second_bytes);
            assert(tlv_items(Seq::<u8>::empty()) =~= Seq::<(u8, Seq<u8>)>::empty());
            lemma_tlv_roundtrip(0x71u8, cred_id_bytes(old@), second_bytes);
        }
    }
    data
}

/// The data of the DELETE command: the credential's identifier under the
/// name tag.
pub fn delete_request(cred: &OathCredential) -> (res: Vec<u8>)
    requires
        cred_id_bytes(cred.id_data@).len() <= 65536,
    ensures
        res@ == simple_tlv_bytes(Tag::Name.spec_byte(), cred_id_bytes(cred.id_data@)),
        cred_id_bytes(cred.id_data@).len() <= 65535 ==> tlv_items(res@) == seq![
            (0x71u8, cred_id_bytes(cred.id_data@)),
        ],
{
    let data = cred.id_data.as_tlv();
    proof {
        if cred_id_bytes(cred.id_data@).len() <= 65535 {
            lemma_tlv_roundtrip(0x71u8, cred_id_bytes(cred.id_data@), Seq::<u8>::empty());
            assert(data@ + Seq::<u8>::empty() =~= data@);
            assert(tlv_items(Seq::<u8>::empty()) =~= Seq::<(u8, Seq<u8>)>::empty());
        }
    }
    data
}

/// The data of the CALCULATE ALL command at `timestamp` (seconds since the
/// epoch): the 30-second challenge under the challenge tag.
pub fn calculate_all_request(timestamp: u64) -> (res: Vec<u8>)
    ensures
        res@ == simple_tlv_bytes(
            Tag::Challenge.spec_byte(),
            be_u64_bytes(timestamp / CHALLENGE_PERIOD),
        ),
        tlv_items(res@).len() == 1,
        tlv_items(res@)[0].0 == 0x74u8,
        tlv_items(res@)[0].1.len() == 8,
        be_value(tlv_items(res@)[0].1) == timestamp / 30,
{
    let data = to_tlv(Tag::Challenge, &time_challenge(timestamp));
    proof {
        let v: u64 = timestamp / CHALLENGE_PERIOD;
        lemma_tlv_roundtrip(0x74u8, be_u64_bytes(v), Seq::<u8>::empty());
        assert(data@ + Seq::<u8>::empty() =~= data@);
        assert(tlv_items(Seq::<u8>::empty()) =~= Seq::<(u8, Seq<u8>)>::empty());
        lemma_be_u64_bytes_value(v);
    }
    data
}

/// The code in a reply to CALCULATE: read from the reply's first object.
/// Refused when the reply holds no object, or when its first object holds
/// no code.
pub fn parse_calculate_response(resp: Vec<u8>) -> (res: Result<OathCodeDisplay, Error>)
    ensures
        ({
            let items = tlv_items(resp@);
            &&& items.len() == 0 ==> (res matches Err(Error::Parsing(m)) && m@
                == "No credentials to unpack found in response"@)
            &&& items.len() > 0 && !holds_code(items[0]) ==> (res matches Err(Error::Parsing(m))
                && m@ == "error parsing calculation response"@)
            &&& items.len() > 0 && holds_code(items[0]) ==> (res matches Ok(c) && is_code_of(
                Some(c),
                items[0],
            ))
        }),
{
    let mut iter = TlvIter::from_vec(resp);
    let meta = match iter.next() {
        Some(m) => m,
        None => {
            proof {
                reveal_strlit("No credentials to unpack found in response");
            }
            return Err(Error::Parsing(String::from_str("No credentials to unpack found in response")));
        },
    };
    match OathCodeDisplay::from_tlv(meta) {
        Some(c) => Ok(c),
        None => {
            proof {
                reveal_strlit("error parsing calculation response");
            }
            Err(Error::Parsing(String::from_str("error parsing calculation response")))
        },
    }
}

/// Whether an object of a reply to LIST can be read: its value has a first
/// byte (type and algorithm), and the identifier after it can be read under
/// that byte's type bits.
pub open spec fn list_item_readable(item: (u8, Seq<u8>)) -> bool {
    item.1.len() > 0 && cred_id_parses(item.1.skip(1), item.1[0] & 0xf0)
}

/// The identifiers in a reply to LIST: each object's value is a byte of
/// type and algorithm, then the identifier, read under the type bits.
/// `None` where an object cannot be read.
pub fn parse_list_response(resp: Vec<u8>) -> (res: Option<Vec<CredentialIDData>>)
    ensures
        ({
            let items = tlv_items(resp@);
            &&& res is Some <==> forall|i: int|
                0 <= i < items.len() ==> #[trigger] list_item_readable(items[i])
            &&& res matches Some(v) ==> {
                &&& v@.len() == items.len()
                &&& forall|i: int|
                    0 <= i < v@.len() ==> #[trigger] v@[i]@ == cred_id_from_bytes(
                        items[i].1.skip(1),
                        items[i].1[0] & 0xf0,
                    )
            }
        }),
{
    let ghost all = tlv_items(resp@);
    let mut key_buffer: Vec<CredentialIDData> = Vec::new();
    let mut iter = TlvIter::from_vec(resp);
    let ghost mut done: Seq<(u8, Seq<u8>)> = seq![];
    assert(done + tlv_items(iter@) =~= all);
    loop
        invariant_except_break
            all == done + tlv_items(iter@),
        invariant
            all == tlv_items(resp@),
            key_buffer@.len() == done.len(),
            forall|i: int| 0 <= i < done.len() ==> #[trigger] list_item_readable(done[i]),
            forall|i: int|
                0 <= i < done.len() ==> #[trigger] key_buffer@[i]@ == cred_id_from_bytes(
                    done[i].1.skip(1),
                    done[i].1[0] & 0xf0,
                ),
        ensures
            all == done,
        decreases iter@.len(),
    {
        let ghost before = iter@;
        let cred_id = match iter.next() {
            Some(t) => t,
            None => {
                assert(done + Seq::<(u8, Seq<u8>)>::empty() =~= done);
                break ;
            },
        };
        proof {
            assert(done.len() < all.len());
            assert(all[done.len() as int] == cred_id@);
        }
        let value = cred_id.value.as_slice();
        if value.len() == 0 {
            proof {
                assert(!list_item_readable(all[done.len() as int]));
            }
            return None;
        }
        let id_bytes = vstd::slice::slice_subrange(value, 1, value.len());
        let tag: u8 = value[0] & 0xf0;
        proof {
            assert(id_bytes@ =~= cred_id@.1.skip(1));
        }
        if CredentialIDData::try_from_bytes(id_bytes, tag).is_none() {
            proof {
                assert(!list_item_readable(all[done.len() as int]));
            }
            return None;
        }
        let id_data = CredentialIDData::from_bytes(id_bytes, tag);
        key_buffer.push(id_data);
        proof {
            let t = cred_id@;
            assert(list_item_readable(t));
            assert((done.push(t) + tlv_items(iter@)) =~= (done + (seq![t] + tlv_items(iter@))));
            done = done.push(t);
        }
    }
    Some(key_buffer)
}

} // verus!
