use vstd::prelude::*;
use vstd::string::StringExecFns;

use crate::constants::{ErrorResponse, Instruction, SuccessResponse};

verus! {

/// What can go wrong in a session with the OATH applet.
#[derive(PartialEq, Eq, Debug)]
pub enum Error {
    Unknown(String),
    /// The applet answered with a failure status word.
    Protocol(ErrorResponse),
    /// The PC/SC layer failed; the value is its raw status code.
    Pcsc(u32),
    Parsing(String),
    DeviceMismatch,
}

/// The status code that the trailer bytes `sw1`, `sw2` are read as: the
/// two bytes OR-ed together, moved into the high byte.
pub open spec fn status_code(sw1: u8, sw2: u8) -> int {
    ((sw1 | sw2) as int) * 256
}

/// Whether the trailer names a failure of the applet.
pub open spec fn names_failure(sw1: u8, sw2: u8) -> bool {
    exists|e: ErrorResponse| #[trigger] e.status_word() == status_code(sw1, sw2)
}

/// Whether the trailer names a success, by its status code or by `sw1` alone.
pub open spec fn names_success(sw1: u8, sw2: u8) -> bool {
    exists|s: SuccessResponse|
        #[trigger] s.status_word() == status_code(sw1, sw2) || s.status_word() == sw1
}

/// Whether a reply with this trailer is accepted.
pub open spec fn status_accepted(sw1: u8, sw2: u8) -> bool {
    !names_failure(sw1, sw2) && names_success(sw1, sw2)
}

/// Whether `e` is the error that a reply with this trailer is refused with:
/// the failure it names, else an unknown error.
pub open spec fn status_error(e: Error, sw1: u8, sw2: u8) -> bool {
    match e {
        Error::Protocol(p) => p.status_word() == status_code(sw1, sw2),
        Error::Unknown(msg) => msg@ == "Unknown error"@ && !names_failure(sw1, sw2),
        _ => false,
    }
}

/// How the trailer of a reply is judged. It is accepted exactly when its two
/// bytes OR-ed together give `90` (success), or when its first byte is `61`
/// (more data waits) whatever its second byte, as long as the two OR-ed
/// together do not give the first byte of a failure status word. Those are
/// `6F` (command aborted) and `6D` (invalid instruction), and a trailer that
/// gives one of them is refused with that failure.
pub proof fn law_trailer_judgement(sw1: u8, sw2: u8)
    ensures
        status_accepted(sw1, sw2) <==> (sw1 | sw2) == 0x90u8 || (sw1 == 0x61u8 && (sw1 | sw2)
            != 0x6du8 && (sw1 | sw2) != 0x6fu8),
        sw1 == 0x61u8 && (sw1 | sw2) != 0x6du8 && (sw1 | sw2) != 0x6fu8 ==> status_accepted(
            sw1,
            sw2,
        ),
        (sw1 | sw2) == 0x6fu8 ==> !status_accepted(sw1, sw2) && status_error(
            Error::Protocol(ErrorResponse::CommandAborted),
            sw1,
            sw2,
        ),
        (sw1 | sw2) == 0x6du8 ==> !status_accepted(sw1, sw2) && status_error(
            Error::Protocol(ErrorResponse::InvalidInstruction),
            sw1,
            sw2,
        ),
{
    let x: u8 = sw1 | sw2;
    assert(status_code(sw1, sw2) == x as int * 256);
    if names_failure(sw1, sw2) {
        let e = choose|e: ErrorResponse| #[trigger] e.status_word() == status_code(sw1, sw2);
        assert(x == 0x6fu8 || x == 0x6du8);
    }
    if x == 0x6fu8 {
        assert(ErrorResponse::CommandAborted.status_word() == status_code(sw1, sw2));
    }
    if x == 0x6du8 {
        assert(ErrorResponse::InvalidInstruction.status_word() == status_code(sw1, sw2));
    }
    if names_success(sw1, sw2) {
        let s = choose|s: SuccessResponse|
            #[trigger] s.status_word() == status_code(sw1, sw2) || s.status_word() == sw1;
        assert(x == 0x90u8 || sw1 == 0x61u8);
    }
    if x == 0x90u8 {
        assert(SuccessResponse::Okay.status_word() == status_code(sw1, sw2));
    }
    if sw1 == 0x61u8 {
        assert(SuccessResponse::MoreData.status_word() == sw1);
    }
}

impl Error {
    /// Judges the trailer of a reply: a failure that the applet names, else
    /// success where a success status word matches, else an unknown error.
    pub fn from_apdu_response(sw1: u8, sw2: u8) -> (res: Result<(), Error>)
        ensures
            res is Ok <==> status_accepted(sw1, sw2),
            res matches Err(e) ==> status_error(e, sw1, sw2),
    {
        let code: u16 = ((sw1 | sw2) as u16) * 256;
        if let Some(e) = ErrorResponse::any_match(code) {
            return Err(Error::Protocol(e));
        }
        let by_code = SuccessResponse::any_match(code);
        let by_sw1 = SuccessResponse::any_match(sw1 as u16);
        if by_code.is_some() || by_sw1.is_some() {
            proof {
                if let Some(s) = by_code {
                    assert(s.status_word() == status_code(sw1, sw2));
                }
                if let Some(s) = by_sw1 {
                    assert(s.status_word() == sw1);
                }
            }
            return Ok(());
        }
        proof {
            reveal_strlit("Unknown error");
        }
        Err(Error::Unknown(String::from_str("Unknown error")))
    }
}

/// A reply of the applet: its data and its two trailer bytes.
pub struct ApduResponse {
    pub buf: Vec<u8>,
    pub sw1: u8,
    pub sw2: u8,
}

/// The bytes of a command APDU as `apdu_core` writes them without its
/// `longer_payloads` feature: CLA, INS, P1, P2, then, with a payload, its
/// length in one byte (the low byte) and the payload.
pub open spec fn command_bytes(cla: u8, ins: u8, p1: u8, p2: u8, payload: Option<Seq<u8>>) -> Seq<
    u8,
> {
    seq![cla, ins, p1, p2] + match payload {
        None => Seq::<u8>::empty(),
        Some(p) => seq![(p.len() % 256) as u8] + p,
    }
}

/// The data and trailer that `apdu_core::Response::from` reads from a reply:
/// the last two bytes are the trailer; a reply shorter than two bytes is all
/// data, with trailer `(0, 0)`.
pub open spec fn response_parts(bytes: Seq<u8>) -> (Seq<u8>, u8, u8) {
    if bytes.len() < 2 {
        (bytes, 0, 0)
    } else {
        (bytes.take(bytes.len() - 2), bytes[bytes.len() - 2], bytes[bytes.len() - 1])
    }
}

/// `Vec::<u8>::from(apdu_core::Command::new(..))`: a command without data.
#[verifier::external_body]
fn apdu_command(cla: u8, ins: u8, p1: u8, p2: u8) -> (res: Vec<u8>)
    ensures
        res@ == command_bytes(cla, ins, p1, p2, None),
{
    apdu_core::Command::new(cla, ins, p1, p2).into()
}

/// `Vec::<u8>::from(apdu_core::Command::new_with_payload(..))`: a command
/// carrying `payload`.
#[verifier::external_body]
fn apdu_command_with_payload(cla: u8, ins: u8, p1: u8, p2: u8, payload: &[u8]) -> (res: Vec<u8>)
    ensures
        res@ == command_bytes(cla, ins, p1, p2, Some(payload@)),
{
    apdu_core::Command::new_with_payload(cla, ins, p1, p2, payload).into()
}

/// `apdu_core::Response::from`: splits a reply into data and trailer.
#[verifier::external_body]
fn apdu_response_parts(bytes: &[u8]) -> (res: (Vec<u8>, u8, u8))
    ensures
        (res.0@, res.1, res.2) == response_parts(bytes@),
{
    let resp = apdu_core::Response::from(bytes);
    (resp.payload.to_vec(), resp.trailer.0, resp.trailer.1)
}

/// The bytes of the command APDU to send, with `data` as payload when
/// there is some.
pub fn build_command(
    class: u8,
    instruction: u8,
    parameter1: u8,
    parameter2: u8,
    data: Option<&[u8]>,
) -> (res: Vec<u8>)
    ensures
        res@ == command_bytes(
            class,
            instruction,
            parameter1,
            parameter2,
            match data {
                Some(d) => Some(d@),
                None => None,
            },
        ),
{
    if let Some(data) = data {
        apdu_command_with_payload(class, instruction, parameter1, parameter2, data)
    } else {
        apdu_command(class, instruction, parameter1, parameter2)
    }
}

/// Reads the bytes received for a command: accepted when the trailer is,
/// refused with the error that the trailer names otherwise.
pub fn process_response(rx: &[u8]) -> (res: Result<ApduResponse, Error>)
    ensures
        ({
            let (payload, sw1, sw2) = response_parts(rx@);
            &&& res is Ok <==> status_accepted(sw1, sw2)
            &&& res matches Ok(r) ==> r.buf@ == payload && r.sw1 == sw1 && r.sw2 == sw2
            &&& res matches Err(e) ==> status_error(e, sw1, sw2)
        }),
{
    let (payload, sw1, sw2) = apdu_response_parts(rx);
    match Error::from_apdu_response(sw1, sw2) {
        Ok(()) => Ok(ApduResponse { buf: payload, sw1, sw2 }),
        Err(e) => Err(e),
    }
}

/// How a reply is split: a reply of two bytes or more is its data followed
/// by its two trailer bytes; a shorter one is all data, with trailer `00 00`.
pub proof fn law_response_split(bytes: Seq<u8>)
    ensures
        bytes.len() >= 2 ==> response_parts(bytes).0 + seq![
            response_parts(bytes).1,
            response_parts(bytes).2,
        ] == bytes,
        bytes.len() < 2 ==> response_parts(bytes) == (bytes, 0u8, 0u8),
{
    if bytes.len() >= 2 {
        let (d, a, b) = response_parts(bytes);
        assert(d + seq![a, b] =~= bytes);
    }
}

/// How a command is written: its four header bytes, then, with a payload
/// shorter than 256 bytes, the payload's length and the payload.
pub proof fn law_command_layout(cla: u8, ins: u8, p1: u8, p2: u8, payload: Option<Seq<u8>>)
    ensures
        command_bytes(cla, ins, p1, p2, payload).take(4) == seq![cla, ins, p1, p2],
        payload is None ==> command_bytes(cla, ins, p1, p2, payload).len() == 4,
        payload matches Some(p) ==> (p.len() < 256 ==> {
            let c = command_bytes(cla, ins, p1, p2, payload);
            &&& c.len() == 5 + p.len()
            &&& c[4] == p.len()
            &&& c.skip(5) == p
        }),
{
    let c = command_bytes(cla, ins, p1, p2, payload);
    assert(c.take(4) =~= seq![cla, ins, p1, p2]);
    if let Some(p) = payload {
        assert(c.skip(5) =~= p);
    }
}

/// Whether a reply whose first trailer byte is `sw1` says that more data
/// waits.
pub open spec fn asks_more(sw1: u8) -> bool {
    sw1 == SuccessResponse::MoreData.status_word()
}

/// The data of `replies` (data, first trailer byte), one after another.
pub open spec fn payloads(replies: Seq<(Seq<u8>, u8)>) -> Seq<u8>
    decreases replies.len(),
{
    if replies.len() == 0 {
        Seq::<u8>::empty()
    } else {
        payloads(replies.drop_last()) + replies.last().0
    }
}

/// How the parts of a long reply are gathered: more data waits exactly
/// after a reply whose first trailer byte is `61`; the data gathered from
/// one reply is its data, and from replies one after another, the data
/// gathered from each, in order.
pub proof fn law_reply_gathering(a: Seq<(Seq<u8>, u8)>, b: Seq<(Seq<u8>, u8)>, r: (Seq<u8>, u8))
    ensures
        asks_more(r.1) <==> r.1 == 0x61u8,
        payloads(seq![r]) == r.0,
        payloads(a + b) == payloads(a) + payloads(b),
    decreases b.len(),
{
    assert(seq![r].drop_last() =~= Seq::<(Seq<u8>, u8)>::empty());
    assert(payloads(Seq::<(Seq<u8>, u8)>::empty()) == Seq::<u8>::empty());
    assert(seq![r].last() == r);
    assert(Seq::<u8>::empty() + r.0 =~= r.0);
    if b.len() == 0 {
        assert(a + b =~= a);
        assert(payloads(a) + Seq::<u8>::empty() =~= payloads(a));
    } else {
        law_reply_gathering(a, b.drop_last(), r);
        assert((a + b).drop_last() =~= a + b.drop_last());
        assert(payloads(a) + payloads(b.drop_last()) + b.last().0 =~= payloads(a) + (payloads(
            b.drop_last(),
        ) + b.last().0));
    }
}

/// Collects the data of a reply that the applet hands out in parts: after
/// each part whose `sw1` says that more data waits, it asks for the rest.
pub struct ReadAll {
    response_buf: Vec<u8>,
    replies: Ghost<Seq<(Seq<u8>, u8)>>,
}

impl ReadAll {
    /// The replies taken so far: data and first trailer byte.
    pub closed spec fn replies(&self) -> Seq<(Seq<u8>, u8)> {
        self.replies@
    }

    /// Whether the collected data is that of the replies taken, and every
    /// reply before the last asked for more.
    pub closed spec fn wf(&self) -> bool {
        &&& self.response_buf@ == payloads(self.replies@)
        &&& forall|i: int| 0 <= i < self.replies@.len() - 1 ==> asks_more(#[trigger] self.replies@[i].1)
    }

    /// Whether the last reply taken said that no more data waits.
    pub open spec fn complete(&self) -> bool {
        self.replies().len() > 0 && !asks_more(self.replies().last().1)
    }

    /// Nothing collected yet.
    pub fn new() -> (res: Self)
        ensures
            res.wf(),
            res.replies() == Seq::<(Seq<u8>, u8)>::empty(),
    {
        ReadAll { response_buf: Vec::new(), replies: Ghost(Seq::empty()) }
    }

    /// Takes the next reply: its data is added, and the command that fetches
    /// the rest is handed back while the reply says that more data waits.
    pub fn on_response(&mut self, resp: ApduResponse) -> (next: Option<Vec<u8>>)
        requires
            old(self).wf(),
            !old(self).complete(),
        ensures
            final(self).wf(),
            final(self).replies() == old(self).replies().push((resp.buf@, resp.sw1)),
            next is Some <==> asks_more(resp.sw1),
            next matches Some(c) ==> c@ == command_bytes(
                0,
                Instruction::SendRemaining.spec_byte(),
                0,
                0,
                None,
            ),
    {
        let ghost before = self.replies@;
        let ghost item = (resp.buf@, resp.sw1);
        let mut data = resp.buf;
        self.response_buf.append(&mut data);
        self.replies = Ghost(before.push(item));
        proof {
            assert(before.push(item).drop_last() =~= before);
            assert forall|i: int| 0 <= i < self.replies@.len() - 1 implies asks_more(
                #[trigger] self.replies@[i].1,
            ) by {
                if i < before.len() - 1 {
                    assert(self.replies@[i] == before[i]);
                } else {
                    assert(self.replies@[i] == before.last());
                }
            }
        }
        if resp.sw1 as u16 == SuccessResponse::MoreData.status() {
            Some(build_command(0, Instruction::SendRemaining.byte(), 0, 0, None))
        } else {
            None
        }
    }

    /// The data collected: the data of all replies taken, in order, every
    /// one before the last having asked for more.
    pub fn finish(self) -> (res: Vec<u8>)
        requires
            self.wf(),
        ensures
            res@ == payloads(self.replies()),
            forall|i: int|
                0 <= i < self.replies().len() - 1 ==> asks_more(#[trigger] self.replies()[i].1),
    {
        self.response_buf
    }
}

} // verus!
