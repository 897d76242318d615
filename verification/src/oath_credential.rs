use std::cmp::Ordering;
use vstd::prelude::*;
use vstd::std_specs::cmp::PartialOrdSpec;
use vstd::utf8::*;

use crate::oath_credentialid::CredentialIDData;
use crate::text::{
    compare_bytes, lemma_lex_sign_antisymmetric, lemma_lex_sign_equal, lemma_lex_sign_transitive,
    law_lex_sign_first_difference, lex_sign, lowercase, str_to_lowercase,
};

verus! {

/// A credential on a device: the device it lives on, its identifier, and
/// whether calculating its code needs a touch.
#[derive(Debug, Clone)]
pub struct OathCredential {
    pub device_id: String,
    pub id_data: CredentialIDData,
    pub touch_required: bool,
}

/// The `Ordering` that a sign (negative, zero, positive) stands for.
pub open spec fn ordering_of_sign(sign: int) -> Ordering {
    if sign < 0 {
        Ordering::Less
    } else if sign == 0 {
        Ordering::Equal
    } else {
        Ordering::Greater
    }
}

/// How two strings compare in Rust: by their UTF-8 bytes.
pub open spec fn text_order(a: Seq<char>, b: Seq<char>) -> Ordering {
    ordering_of_sign(lex_sign(encode_utf8(a), encode_utf8(b)))
}

/// The first text credentials are sorted by: the issuer, or the name when
/// there is no issuer, in lower case.
pub open spec fn sort_primary(c: OathCredential) -> Seq<char> {
    match c.id_data.issuer {
        Some(i) => lowercase(i@),
        None => lowercase(c.id_data.name@),
    }
}

/// The second text credentials are sorted by: the name in lower case.
pub open spec fn sort_secondary(c: OathCredential) -> Seq<char> {
    lowercase(c.id_data.name@)
}

/// How two credentials are ordered: by `sort_primary`, then by
/// `sort_secondary`.
pub open spec fn credential_order(a: OathCredential, b: OathCredential) -> Ordering {
    match text_order(sort_primary(a), sort_primary(b)) {
        Ordering::Equal => text_order(sort_secondary(a), sort_secondary(b)),
        o => o,
    }
}

/// Compares two strings as Rust compares them.
fn compare_text(a: &str, b: &str) -> (res: Ordering)
    ensures
        res == text_order(a@, b@),
{
    let sign: i8 = compare_bytes(a.as_bytes(), b.as_bytes());
    if sign < 0 {
        Ordering::Less
    } else if sign == 0 {
        Ordering::Equal
    } else {
        Ordering::Greater
    }
}

/// The order of two credentials reverses when they are swapped.
pub proof fn lemma_credential_order_antisymmetric(a: OathCredential, b: OathCredential)
    ensures
        credential_order(a, b) == Ordering::Less <==> credential_order(b, a) == Ordering::Greater,
        credential_order(a, b) == Ordering::Equal <==> credential_order(b, a) == Ordering::Equal,
{
    lemma_lex_sign_antisymmetric(
        encode_utf8(sort_primary(a)),
        encode_utf8(sort_primary(b)),
    );
    lemma_lex_sign_antisymmetric(
        encode_utf8(sort_secondary(a)),
        encode_utf8(sort_secondary(b)),
    );
}

/// Every credential is ordered equal to itself.
pub proof fn lemma_credential_order_reflexive(a: OathCredential)
    ensures
        credential_order(a, a) == Ordering::Equal,
{
    lemma_lex_sign_equal(encode_utf8(sort_primary(a)), encode_utf8(sort_primary(a)));
    lemma_lex_sign_equal(encode_utf8(sort_secondary(a)), encode_utf8(sort_secondary(a)));
}

/// Credentials are ordered transitively.
pub proof fn lemma_credential_order_transitive(a: OathCredential, b: OathCredential, c: OathCredential)
    requires
        credential_order(a, b) == Ordering::Less,
        credential_order(b, c) == Ordering::Less,
    ensures
        credential_order(a, c) == Ordering::Less,
{
    let (pa, pb, pc) = (
        encode_utf8(sort_primary(a)),
        encode_utf8(sort_primary(b)),
        encode_utf8(sort_primary(c)),
    );
    let (sa, sb, sc) = (
        encode_utf8(sort_secondary(a)),
        encode_utf8(sort_secondary(b)),
        encode_utf8(sort_secondary(c)),
    );
    lemma_lex_sign_equal(pa, pb);
    lemma_lex_sign_equal(pb, pc);
    lemma_lex_sign_equal(pa, pc);
    if lex_sign(pa, pb) < 0 && lex_sign(pb, pc) < 0 {
        lemma_lex_sign_transitive(pa, pb, pc);
    }
    if lex_sign(pa, pb) < 0 && lex_sign(pb, pc) == 0 {
        assert(pb == pc);
    }
    if lex_sign(pa, pb) == 0 && lex_sign(pb, pc) < 0 {
        assert(pa == pb);
    }
    if lex_sign(pa, pb) == 0 && lex_sign(pb, pc) == 0 {
        assert(pa == pc);
        lemma_lex_sign_transitive(sa, sb, sc);
    }
}

/// How `partial_cmp` orders two credentials: always comparably; first by the
/// whole issuer in lower case (the whole name in lower case where there is no
/// issuer), compared as Rust compares strings, and, where those are the same
/// text, by the whole name in lower case.
pub proof fn law_credentials_ordered_by_issuer_then_name(a: OathCredential, b: OathCredential)
    ensures
        a.partial_cmp_spec(&b) is Some,
        ({
            let ka = match a.id_data.issuer {
                Some(i) => lowercase(i@),
                None => lowercase(a.id_data.name@),
            };
            let kb = match b.id_data.issuer {
                Some(i) => lowercase(i@),
                None => lowercase(b.id_data.name@),
            };
            let ea = encode_utf8(ka);
            let eb = encode_utf8(kb);
            let na = encode_utf8(lowercase(a.id_data.name@));
            let nb = encode_utf8(lowercase(b.id_data.name@));
            &&& ka != kb ==> (a.partial_cmp_spec(&b) == Some(Ordering::Less) <==> lex_sign(ea, eb) < 0)
            &&& ka != kb ==> (a.partial_cmp_spec(&b) == Some(Ordering::Greater) <==> lex_sign(eb, ea) < 0)
            &&& ka == kb ==> (a.partial_cmp_spec(&b) == Some(Ordering::Less) <==> lex_sign(na, nb) < 0)
            &&& ka == kb ==> (a.partial_cmp_spec(&b) == Some(Ordering::Greater) <==> lex_sign(nb, na) < 0)
            &&& ka == kb ==> (a.partial_cmp_spec(&b) == Some(Ordering::Equal) <==> na == nb)
        }),
{
    let ka = sort_primary(a);
    let kb = sort_primary(b);
    encode_utf8_decode_utf8(ka);
    encode_utf8_decode_utf8(kb);
    law_lex_sign_first_difference(encode_utf8(ka), encode_utf8(kb));
    law_lex_sign_first_difference(encode_utf8(kb), encode_utf8(ka));
    law_lex_sign_first_difference(
        encode_utf8(sort_secondary(a)),
        encode_utf8(sort_secondary(b)),
    );
    law_lex_sign_first_difference(
        encode_utf8(sort_secondary(b)),
        encode_utf8(sort_secondary(a)),
    );
}

impl PartialEq for OathCredential {
    fn eq(&self, other: &Self) -> (res: bool) {
        let res = self.device_id.eq(&other.device_id) && self.id_data.eq(&other.id_data);
        res
    }
}

impl vstd::std_specs::cmp::PartialEqSpecImpl for OathCredential {
    open spec fn obeys_eq_spec() -> bool {
        true
    }

    /// Credentials are equal when they live on the same device under the
    /// same identifier.
    open spec fn eq_spec(&self, other: &Self) -> bool {
        self.device_id@ == other.device_id@ && self.id_data@ == other.id_data@
    }
}

impl PartialOrd for OathCredential {
    fn partial_cmp(&self, other: &Self) -> (res: Option<Ordering>) {
        let a_primary = match &self.id_data.issuer {
            Some(i) => str_to_lowercase(i.as_str()),
            None => str_to_lowercase(self.id_data.name.as_str()),
        };
        let b_primary = match &other.id_data.issuer {
            Some(i) => str_to_lowercase(i.as_str()),
            None => str_to_lowercase(other.id_data.name.as_str()),
        };
        let first = compare_text(a_primary.as_str(), b_primary.as_str());
        match first {
            Ordering::Equal => {
                let a_secondary = str_to_lowercase(self.id_data.name.as_str());
                let b_secondary = str_to_lowercase(other.id_data.name.as_str());
                Some(compare_text(a_secondary.as_str(), b_secondary.as_str()))
            },
            Ordering::Less => Some(Ordering::Less),
            Ordering::Greater => Some(Ordering::Greater),
        }
    }
}

impl vstd::std_specs::cmp::PartialOrdSpecImpl for OathCredential {
    open spec fn obeys_partial_cmp_spec() -> bool {
        true
    }

    /// Credentials are always comparable, by `credential_order`.
    open spec fn partial_cmp_spec(&self, other: &Self) -> Option<Ordering> {
        Some(credential_order(*self, *other))
    }
}

/// `String`'s `Hash::hash`: feeds the string to `state`. Nothing is stated
/// of what it feeds.
pub assume_specification<H: core::hash::Hasher>[ <String as core::hash::Hash>::hash::<H> ](
    s: &String,
    state: &mut H,
);

/// The `Hash::hash` of a slice: feeds its length and elements to `state`.
/// Nothing is stated of what it feeds.
pub assume_specification<Elem: core::hash::Hash, H: core::hash::Hasher>[ <[Elem] as core::hash::Hash>::hash::<H> ](
    s: &[Elem],
    state: &mut H,
);

impl core::hash::Hash for OathCredential {
    fn hash<H: core::hash::Hasher>(&self, state: &mut H) {
        self.device_id.hash(state);
        self.id_data.format_cred_id().as_slice().hash(state);
    }
}

} // verus!
