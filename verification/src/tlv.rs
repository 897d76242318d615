use std::collections::HashMap;
use vstd::prelude::*;

use crate::constants::Tag;

verus! {

broadcast use vstd::std_specs::hash::group_hash_axioms;

/// A SIMPLE-TLV data object (ISO 7816-4): a tag byte and a value.
#[derive(Debug, Clone, PartialEq, Eq)]
pub struct Tlv {
    pub tag: u8,
    pub value: Vec<u8>,
}

impl View for Tlv {
    type V = (u8, Seq<u8>);

    open spec fn view(&self) -> (u8, Seq<u8>) {
        (self.tag, self.value@)
    }
}

/// Whether `t` may stand in the tag field: `00` and `FF` may not.
pub open spec fn valid_tag(t: u8) -> bool {
    t != 0x00 && t != 0xff
}

/// The result of reading one SIMPLE-TLV object from the front of `b`: the
/// tag and value, if a whole object is there, and the bytes left unread.
/// The tag is one byte; the length is one byte below `FF`, or `FF` followed by
/// two bytes, big-endian. When reading fails, the bytes read up to the
/// failure are gone.
pub open spec fn parse_simple_tlv(b: Seq<u8>) -> (Option<(u8, Seq<u8>)>, Seq<u8>) {
    if b.len() == 0 {
        (None, b)
    } else if !valid_tag(b[0]) || b.len() < 2 {
        (None, b.skip(1))
    } else if b[1] == 0xff {
        if b.len() < 4 {
            (None, b.skip(b.len() as int))
        } else {
            let len = b[2] * 256 + b[3];
            if 4 + len > b.len() {
                (None, b.skip(4))
            } else {
                (Some((b[0], b.subrange(4, 4 + len))), b.skip(4 + len))
            }
        }
    } else {
        let len = b[1] as int;
        if 2 + len > b.len() {
            (None, b.skip(2))
        } else {
            (Some((b[0], b.subrange(2, 2 + len))), b.skip(2 + len))
        }
    }
}

/// The bytes that serialize the SIMPLE-TLV object (`tag`, `value`): the
/// tag, the length in one byte when below 255, else `FF` and the length's
/// low 16 bits big-endian, then the value.
pub open spec fn simple_tlv_bytes(tag: u8, value: Seq<u8>) -> Seq<u8> {
    let len = value.len();
    let len_field = if len >= 255 {
        seq![0xffu8, ((len / 256) % 256) as u8, (len % 256) as u8]
    } else {
        seq![len as u8]
    };
    seq![tag] + len_field + value
}

/// The objects read one after another from `b`, up to the end of `b` or to
/// the first that cannot be read.
pub open spec fn tlv_items(b: Seq<u8>) -> Seq<(u8, Seq<u8>)>
    decreases b.len(),
{
    if b.len() == 0 {
        seq![]
    } else {
        match parse_simple_tlv(b).0 {
            None => seq![],
            Some(t) => seq![t] + tlv_items(parse_simple_tlv(b).1),
        }
    }
}

/// The bytes left after one read from `b`: all of an empty buffer, else
/// what `parse_simple_tlv` leaves.
pub open spec fn tlv_step(b: Seq<u8>) -> Seq<u8> {
    if b.len() == 0 {
        b
    } else {
        parse_simple_tlv(b).1
    }
}

/// `iso7816_tlv::simple::Tlv::parse`: reads one object from the front of
/// `input` and hands back the bytes it left unread, as its source does
/// (stated by `parse_simple_tlv`).
#[verifier::external_body]
fn tlv_parse(input: &[u8]) -> (res: (Option<Tlv>, &[u8]))
    ensures
        res.1@ == parse_simple_tlv(input@).1,
        match res.0 {
            Some(t) => parse_simple_tlv(input@).0 == Some(t@),
            None => parse_simple_tlv(input@).0 is None,
        },
{
    let (r, rest) = iso7816_tlv::simple::Tlv::parse(input);
    let item = match r {
        Ok(t) => Some(Tlv { tag: t.tag().into(), value: t.value().to_vec() }),
        Err(_) => None,
    };
    (item, rest)
}

/// `iso7816_tlv::simple::Tlv::to_vec` of the object that `Tlv::new` makes of
/// `tag` and `value`; `Tlv::new` accepts values up to 65536 bytes and the
/// tag conversion accepts any tag but `00` and `FF`.
#[verifier::external_body]
fn tlv_serialize(tag: u8, value: &[u8]) -> (res: Vec<u8>)
    requires
        valid_tag(tag),
        value@.len() <= 65536,
    ensures
        res@ == simple_tlv_bytes(tag, value@),
{
    let tag = iso7816_tlv::simple::Tag::try_from(tag).unwrap();
    iso7816_tlv::simple::Tlv::new(tag, value.to_vec()).unwrap().to_vec()
}

/// `Vec::leak`: the vector's contents, kept for the rest of the program.
#[verifier::external_body]
fn leak_bytes(v: Vec<u8>) -> (res: &'static [u8])
    ensures
        res@ == v@,
{
    v.leak()
}

/// Serializes `value` under `tag` as a SIMPLE-TLV object.
pub fn to_tlv(tag: Tag, value: &[u8]) -> (res: Vec<u8>)
    requires
        value@.len() <= 65536,
    ensures
        res@ == simple_tlv_bytes(tag.spec_byte(), value@),
{
    tlv_serialize(tag.byte(), value)
}

/// Reads SIMPLE-TLV objects one after another from a byte buffer.
#[derive(Copy, Clone)]
pub struct TlvIter<'a> {
    buf: &'a [u8],
}

impl<'a> View for TlvIter<'a> {
    type V = Seq<u8>;

    /// The bytes not read yet.
    closed spec fn view(&self) -> Seq<u8> {
        self.buf@
    }
}

impl<'a> TlvIter<'a> {
    /// Reads from `value`.
    pub fn new(value: &'a [u8]) -> (res: Self)
        ensures
            res@ == value@,
    {
        TlvIter { buf: value }
    }

    /// Reads from `value`, which is kept for the rest of the program.
    pub fn from_vec(value: Vec<u8>) -> (res: Self)
        ensures
            res@ == value@,
    {
        TlvIter { buf: leak_bytes(value) }
    }

    /// The next object; `None` at the end of the buffer or where an object
    /// cannot be read, in which case the bytes read up to the failure are
    /// skipped.
    pub fn next(&mut self) -> (res: Option<Tlv>)
        ensures
            final(self)@ == tlv_step(old(self)@),
            old(self)@.len() == 0 ==> res is None,
            old(self)@.len() > 0 ==> match res {
                Some(t) => parse_simple_tlv(old(self)@).0 == Some(t@),
                None => parse_simple_tlv(old(self)@).0 is None,
            },
            res matches Some(t) ==> tlv_items(old(self)@) == seq![t@] + tlv_items(final(self)@),
            res is None ==> tlv_items(old(self)@) == Seq::<(u8, Seq<u8>)>::empty(),
            res is Some ==> final(self)@.len() < old(self)@.len(),
    {
        if self.buf.len() == 0 {
            return None;
        }
        let (r, remaining) = tlv_parse(self.buf);
        self.buf = remaining;
        r
    }
}

/// The objects of `items` taken two by two, a final odd one dropped.
pub open spec fn tlv_pairs(items: Seq<(u8, Seq<u8>)>) -> Seq<((u8, Seq<u8>), (u8, Seq<u8>))>
    decreases items.len(),
{
    if items.len() < 2 {
        seq![]
    } else {
        seq![(items[0], items[1])] + tlv_pairs(items.skip(2))
    }
}

/// Reads SIMPLE-TLV objects two by two.
pub struct TlvZipIter<'a> {
    iter: TlvIter<'a>,
}

impl<'a> View for TlvZipIter<'a> {
    type V = Seq<u8>;

    /// The bytes not read yet.
    closed spec fn view(&self) -> Seq<u8> {
        self.iter@
    }
}

impl<'a> TlvZipIter<'a> {
    /// Reads from `value`.
    pub fn new(value: &'a [u8]) -> (res: Self)
        ensures
            res@ == value@,
    {
        TlvZipIter { iter: TlvIter::new(value) }
    }

    /// Reads from `value`, which is kept for the rest of the program.
    pub fn from_vec(value: Vec<u8>) -> (res: Self)
        ensures
            res@ == value@,
    {
        TlvZipIter { iter: TlvIter::from_vec(value) }
    }

    /// Reads where `value` stands.
    pub fn from_tlv_iter(value: TlvIter<'a>) -> (res: Self)
        ensures
            res@ == value@,
    {
        TlvZipIter { iter: value }
    }

    /// The next two objects; `None` when fewer than two can be read, in
    /// which case a first one read is lost.
    pub fn next(&mut self) -> (res: Option<(Tlv, Tlv)>)
        ensures
            match res {
                Some((a, b)) => tlv_items(old(self)@) == seq![a@, b@] + tlv_items(final(self)@),
                None => tlv_items(old(self)@).len() < 2,
            },
            res is Some ==> final(self)@ == tlv_step(tlv_step(old(self)@)),
            res is None && tlv_items(old(self)@).len() == 0 ==> final(self)@ == tlv_step(old(self)@),
            res is None && tlv_items(old(self)@).len() == 1 ==> final(self)@ == tlv_step(
                tlv_step(old(self)@),
            ),
            res matches Some(p) ==> tlv_pairs(tlv_items(old(self)@)) == seq![(p.0@, p.1@)]
                + tlv_pairs(tlv_items(final(self)@)),
            res is None ==> tlv_pairs(tlv_items(old(self)@)) == Seq::<
                ((u8, Seq<u8>), (u8, Seq<u8>)),
            >::empty(),
            res is Some ==> final(self)@.len() < old(self)@.len(),
    {
        let first = match self.iter.next() {
            Some(t) => t,
            None => return None,
        };
        let second = match self.iter.next() {
            Some(t) => t,
            None => return None,
        };
        proof {
            let items = tlv_items(old(self)@);
            assert(items.skip(2) =~= tlv_items(self@));
        }
        Some((first, second))
    }
}

/// Taking objects two by two: there are half as many pairs as objects
/// (rounded down), and pair `k` is object `2k` with object `2k + 1`.
pub proof fn law_tlv_pairs_by_index(items: Seq<(u8, Seq<u8>)>)
    ensures
        tlv_pairs(items).len() == items.len() / 2,
        forall|k: int|
            0 <= k < tlv_pairs(items).len() ==> #[trigger] tlv_pairs(items)[k] == (
                items[2 * k],
                items[2 * k + 1],
            ),
    decreases items.len(),
{
    if items.len() >= 2 {
        let rest = items.skip(2);
        law_tlv_pairs_by_index(rest);
        assert forall|k: int| 0 <= k < tlv_pairs(items).len() implies #[trigger] tlv_pairs(
            items,
        )[k] == (items[2 * k], items[2 * k + 1]) by {
            if k > 0 {
                assert(tlv_pairs(items)[k] == tlv_pairs(rest)[k - 1]);
                assert(rest[2 * (k - 1)] == items[2 * k]);
                assert(rest[2 * (k - 1) + 1] == items[2 * k + 1]);
            }
        }
    }
}

/// The map from tag to value that taking `items` in order builds, a later
/// value replacing an earlier one under the same tag.
pub open spec fn tlv_map(items: Seq<(u8, Seq<u8>)>) -> Map<u8, Seq<u8>>
    decreases items.len(),
{
    if items.len() == 0 {
        Map::empty()
    } else {
        tlv_map(items.drop_last()).insert(items.last().0, items.last().1)
    }
}

/// The map from tag to all the values under that tag, in order.
pub open spec fn tlv_lists(items: Seq<(u8, Seq<u8>)>) -> Map<u8, Seq<Seq<u8>>>
    decreases items.len(),
{
    if items.len() == 0 {
        Map::empty()
    } else {
        let m = tlv_lists(items.drop_last());
        let (t, v) = items.last();
        m.insert(
            t,
            if m.contains_key(t) {
                m[t].push(v)
            } else {
                seq![v]
            },
        )
    }
}

/// Whether the map of byte vectors `m` holds the keys and values of `s`.
pub open spec fn holds_values(m: Map<u8, Vec<u8>>, s: Map<u8, Seq<u8>>) -> bool {
    &&& m.dom() == s.dom()
    &&& forall|k: u8| #[trigger] m.contains_key(k) ==> m[k]@ == s[k]
}

/// The contents of each byte vector of `v`.
pub open spec fn vecs_view(v: Seq<Vec<u8>>) -> Seq<Seq<u8>> {
    v.map_values(|x: Vec<u8>| x@)
}

/// Whether the map of lists of byte vectors `m` holds the keys and lists of `s`.
pub open spec fn holds_lists(m: Map<u8, Vec<Vec<u8>>>, s: Map<u8, Seq<Seq<u8>>>) -> bool {
    &&& m.dom() == s.dom()
    &&& forall|k: u8| #[trigger] m.contains_key(k) ==> vecs_view(m[k]@) == s[k]
}

/// Maps each tag of the objects in `data` to its value; where a tag comes
/// more than once, the last value stands.
pub fn tlv_to_map(data: Vec<u8>) -> (res: HashMap<u8, Vec<u8>>)
    ensures
        holds_values(res@, tlv_map(tlv_items(data@))),
{
    let mut parsed_manual: HashMap<u8, Vec<u8>> = HashMap::new();
    let ghost all = tlv_items(data@);
    let mut iter = TlvIter::from_vec(data);
    let ghost mut done: Seq<(u8, Seq<u8>)> = seq![];
    assert(done + tlv_items(iter@) =~= all);
    loop
        invariant_except_break
            all == done + tlv_items(iter@),
        invariant
            holds_values(parsed_manual@, tlv_map(done)),
        ensures
            all == done,
            holds_values(parsed_manual@, tlv_map(done)),
        decreases iter@.len(),
    {
        match iter.next() {
            None => {
                assert(done + Seq::<(u8, Seq<u8>)>::empty() =~= done);
                break ;
            },
            Some(res) => {
                proof {
                    assert(done.push(res@).drop_last() =~= done);
                    assert(done + seq![res@] =~= done.push(res@));
                    assert((done + seq![res@]) + tlv_items(iter@) =~= done + (seq![res@] + tlv_items(iter@)));
                    done = done.push(res@);
                }
                parsed_manual.insert(res.tag, res.value);
            },
        }
    }
    parsed_manual
}

/// Maps each tag of the objects in `data` to the list of its values, in order.
pub fn tlv_to_lists(data: Vec<u8>) -> (res: HashMap<u8, Vec<Vec<u8>>>)
    ensures
        holds_lists(res@, tlv_lists(tlv_items(data@))),
{
    let mut parsed_manual: HashMap<u8, Vec<Vec<u8>>> = HashMap::new();
    let ghost all = tlv_items(data@);
    let mut iter = TlvIter::from_vec(data);
    let ghost mut done: Seq<(u8, Seq<u8>)> = seq![];
    assert(done + tlv_items(iter@) =~= all);
    loop
        invariant_except_break
            all == done + tlv_items(iter@),
        invariant
            holds_lists(parsed_manual@, tlv_lists(done)),
        ensures
            all == done,
            holds_lists(parsed_manual@, tlv_lists(done)),
        decreases iter@.len(),
    {
        match iter.next() {
            None => {
                assert(done + Seq::<(u8, Seq<u8>)>::empty() =~= done);
                break ;
            },
            Some(res) => {
                let ghost before = parsed_manual@;
                let mut list: Vec<Vec<u8>> = match parsed_manual.remove(&res.tag) {
                    Some(l) => l,
                    None => Vec::new(),
                };
                let ghost old_list = list@;
                list.push(res.value);
                proof {
                    assert(vecs_view(list@) =~= vecs_view(old_list).push(res.value@));
                    assert(done.push(res@).drop_last() =~= done);
                    assert(done + seq![res@] =~= done.push(res@));
                    assert((done + seq![res@]) + tlv_items(iter@) =~= done + (seq![res@] + tlv_items(iter@)));
                    done = done.push(res@);
                }
                parsed_manual.insert(res.tag, list);
                proof {
                    let s = tlv_lists(done);
                    assert(parsed_manual@.dom() =~= s.dom());
                    assert forall|k: u8| #[trigger] parsed_manual@.contains_key(k) implies vecs_view(parsed_manual@[k]@) == s[k] by {
                        if k != res.tag {
                            assert(before.contains_key(k));
                        }
                    }
                }
            },
        }
    }
    parsed_manual
}

/// Reading back a serialized object gives its tag and value, and leaves
/// untouched whatever followed it.
pub proof fn lemma_tlv_roundtrip(tag: u8, value: Seq<u8>, rest: Seq<u8>)
    requires
        valid_tag(tag),
        value.len() <= 65535,
    ensures
        parse_simple_tlv(simple_tlv_bytes(tag, value) + rest) == (Some((tag, value)), rest),
        tlv_items(simple_tlv_bytes(tag, value) + rest) == seq![(tag, value)] + tlv_items(rest),
{
    let b = simple_tlv_bytes(tag, value) + rest;
    let len = value.len() as int;
    if len >= 255 {
        assert(b[1] == 0xff);
        assert(b[2] as int * 256 + b[3] as int == len);
        assert(b.subrange(4, 4 + len) =~= value);
        assert(b.skip(4 + len) =~= rest);
    } else {
        assert(b[1] as int == len);
        assert(b.subrange(2, 2 + len) =~= value);
        assert(b.skip(2 + len) =~= rest);
    }
}

/// Serializing objects one after another and reading the bytes back gives
/// the objects in order.
pub proof fn lemma_tlv_sequence_roundtrip(objects: Seq<(u8, Seq<u8>)>)
    requires
        forall|i: int|
            0 <= i < objects.len() ==> valid_tag(#[trigger] objects[i].0) && objects[i].1.len()
                <= 65535,
    ensures
        tlv_items(tlv_concat(objects)) == objects,
    decreases objects.len(),
{
    if objects.len() > 0 {
        let rest = objects.drop_first();
        lemma_tlv_sequence_roundtrip(rest);
        lemma_tlv_roundtrip(objects[0].0, objects[0].1, tlv_concat(rest));
        assert(seq![objects[0]] + rest =~= objects);
    }
}

/// The serializations of `objects`, one after another.
pub open spec fn tlv_concat(objects: Seq<(u8, Seq<u8>)>) -> Seq<u8>
    decreases objects.len(),
{
    if objects.len() == 0 {
        seq![]
    } else {
        simple_tlv_bytes(objects[0].0, objects[0].1) + tlv_concat(objects.drop_first())
    }
}

/// In the map of tags to values, a tag stands for the value of its last
/// object, and only the tags of the objects stand in it.
pub proof fn lemma_tlv_map_last_wins(items: Seq<(u8, Seq<u8>)>, i: int)
    requires
        0 <= i < items.len(),
        forall|j: int| i < j < items.len() ==> #[trigger] items[j].0 != items[i].0,
    ensures
        tlv_map(items).contains_key(items[i].0),
        tlv_map(items)[items[i].0] == items[i].1,
    decreases items.len(),
{
    if i < items.len() - 1 {
        lemma_tlv_map_last_wins(items.drop_last(), i);
    }
}

/// Only the tags of the objects are keys of the map of tags to values.
pub proof fn lemma_tlv_map_keys(items: Seq<(u8, Seq<u8>)>, k: u8)
    ensures
        tlv_map(items).contains_key(k) <==> exists|j: int| 0 <= j < items.len() && #[trigger] items[j].0 == k,
    decreases items.len(),
{
    if items.len() > 0 {
        lemma_tlv_map_keys(items.drop_last(), k);
        if tlv_map(items.drop_last()).contains_key(k) {
            let j = choose|j: int| 0 <= j < items.drop_last().len() && #[trigger] items.drop_last()[j].0 == k;
            assert(items[j].0 == k);
        }
        if exists|j: int| 0 <= j < items.len() && #[trigger] items[j].0 == k {
            let j = choose|j: int| 0 <= j < items.len() && #[trigger] items[j].0 == k;
            if j < items.len() - 1 {
                assert(items.drop_last()[j].0 == k);
            }
        }
    }
}

/// The map of lists and the map of values have the same tags; no list is
/// empty, and the last value of each list is the value the map keeps.
pub proof fn lemma_tlv_lists_and_map(items: Seq<(u8, Seq<u8>)>)
    ensures
        tlv_lists(items).dom() == tlv_map(items).dom(),
        forall|k: u8|
            #[trigger] tlv_lists(items).contains_key(k) ==> tlv_lists(items)[k].len() > 0
                && tlv_lists(items)[k].last() == tlv_map(items)[k],
    decreases items.len(),
{
    if items.len() > 0 {
        lemma_tlv_lists_and_map(items.drop_last());
        assert(tlv_lists(items).dom() =~= tlv_map(items).dom());
    } else {
        assert(tlv_lists(items).dom() =~= tlv_map(items).dom());
    }
}

} // verus!
