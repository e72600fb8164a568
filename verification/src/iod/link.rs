//! A request/response link to the IO microcontroller.
//!
//! The part is a single UART that answers one question at a time. Replies are
//! matched on the sequence number, the only field that is reliably echoed: the
//! reply opcode is not always the request's plus one.
use crate::iod::mcu::{
    encode, frames, wire, Decoder, DecoderModel, Frame, FrameModel, Hunt, OP_AUTO_BAUD, OP_AUTO_BAUD_RESP,
    OP_CONTACT_GET,
    OP_FIRMWARE_VERSION, OP_IRIN_SET_CAPTURE, OP_PRODUCT_NAME, OP_RELAY_GET, OP_RELAY_TOGGLE,
};
use crate::num::{dec, dec_string, hex2_string, hex_fixed};
use crate::text::{cat4, cat6, lossy, lossy_text};
use vstd::prelude::*;
use vstd::string::*;

verus! {

/// The link: the decoder of what arrives, the last sequence number, and the
/// frames nobody asked for, such as an IR capture when somebody presses a remote.
pub struct Link {
    pub dec: Decoder,
    pub seq: u8,
    pub stray: Vec<Frame>,
}

pub ghost struct LinkModel {
    pub dec: DecoderModel,
    pub seq: u8,
    pub stray: Seq<FrameModel>,
}

impl View for Link {
    type V = LinkModel;

    open spec fn view(&self) -> LinkModel {
        LinkModel { dec: self.dec@, seq: self.seq, stray: frames(self.stray@) }
    }
}

/// The sequence number after one.
pub open spec fn following(seq: u8) -> u8 {
    if seq == 255 {
        0
    } else {
        (seq + 1) as u8
    }
}

/// The first frame with a sequence number.
pub open spec fn reply_in(v: Seq<FrameModel>, seq: u8) -> Option<FrameModel>
    decreases v.len(),
{
    if v.len() == 0 {
        None
    } else {
        match reply_in(v.drop_last(), seq) {
            Some(f) => Some(f),
            None => if v.last().seq == seq {
                Some(v.last())
            } else {
                None
            },
        }
    }
}

/// The frames that are not that reply, in their order.
pub open spec fn strays_in(v: Seq<FrameModel>, seq: u8) -> Seq<FrameModel>
    decreases v.len(),
{
    if v.len() == 0 {
        seq![]
    } else if v.last().seq == seq && reply_in(v.drop_last(), seq) is None {
        strays_in(v.drop_last(), seq)
    } else {
        strays_in(v.drop_last(), seq).push(v.last())
    }
}

impl LinkModel {
    /// The bytes of a request, and the link once it is sent.
    pub open spec fn asked(self, opcode: u8, payload: Seq<u8>) -> (LinkModel, Seq<u8>) {
        let seq = following(self.seq);
        (LinkModel { seq, ..self }, wire(FrameModel { opcode, seq, flags: 0, payload }))
    }

    /// Bytes heard while waiting for a reply: the reply if it arrived, everything
    /// else kept.
    pub open spec fn heard(self, data: Seq<u8>) -> (LinkModel, Option<FrameModel>) {
        let (dec, got) = self.dec.run(data);
        (
            LinkModel { dec, stray: self.stray + strays_in(got, self.seq), ..self },
            reply_in(got, self.seq),
        )
    }

    /// Bytes heard when nothing was asked.
    pub open spec fn overheard(self, data: Seq<u8>) -> LinkModel {
        let (dec, got) = self.dec.run(data);
        LinkModel { dec, stray: self.stray + got, ..self }
    }
}

fn copy_frame(f: &Frame) -> (r: Frame)
    ensures
        r@ == f@,
{
    let mut p: Vec<u8> = Vec::new();
    let mut i: usize = 0;
    while i < f.payload.len()
        invariant
            i <= f.payload@.len(),
            p@ == f.payload@.take(i as int),
        decreases f.payload@.len() - i,
    {
        p.push(f.payload[i]);
        assert(p@ =~= f.payload@.take(i + 1));
        i += 1;
    }
    assert(f.payload@.take(f.payload@.len() as int) =~= f.payload@);
    Frame { opcode: f.opcode, seq: f.seq, flags: f.flags, payload: p }
}

impl Link {
    pub fn new() -> (r: Link)
        ensures
            r@ == (LinkModel {
                dec: DecoderModel { state: Hunt::Idle, body: seq![], resyncs: 0, bad_checksums: 0 },
                seq: 0,
                stray: seq![],
            }),
    {
        let r = Link { dec: Decoder::new(), seq: 0, stray: Vec::new() };
        assert(frames(r.stray@) =~= seq![]);
        r
    }

    /// The bytes that ask for something, under the next sequence number.
    pub fn request(&mut self, opcode: u8, payload: &[u8]) -> (r: Vec<u8>)
        ensures
            (final(self)@, r@) == old(self)@.asked(opcode, payload@),
    {
        self.seq = if self.seq == 255 { 0 } else { self.seq + 1 };
        encode(opcode, self.seq, 0, payload)
    }

    /// Take in bytes while waiting for the reply to the last request. Frames that
    /// are not the reply are kept: they are the traffic an external control
    /// system most wants to see.
    pub fn hear(&mut self, data: &[u8]) -> (r: Option<Frame>)
        requires
            old(self)@.dec.resyncs + data@.len() <= u64::MAX,
            old(self)@.dec.bad_checksums + data@.len() <= u64::MAX,
        ensures
            final(self)@ == old(self)@.heard(data@).0,
            match old(self)@.heard(data@).1 {
                Some(f) => r is Some && r->0@ == f,
                None => r is None,
            },
    {
        let got = self.dec.feed(data);
        let ghost all = frames(got@);
        let ghost was = frames(self.stray@);
        let seq: u8 = self.seq;
        let ghost dec = self.dec@;
        let mut reply: Option<Frame> = None;
        let mut i: usize = 0;
        assert(was + strays_in(all.take(0), seq) =~= was);
        while i < got.len()
            invariant
                i <= got@.len(),
                all == frames(got@),
                self.seq == seq,
                self.dec@ == dec,
                frames(self.stray@) == was + strays_in(all.take(i as int), seq),
                match reply_in(all.take(i as int), seq) {
                    Some(f) => reply is Some && reply->0@ == f,
                    None => reply is None,
                },
            decreases got@.len() - i,
        {
            assert(all.take(i + 1).drop_last() =~= all.take(i as int));
            assert(all.take(i + 1).last() == got@[i as int]@);
            let f = copy_frame(&got[i]);
            if f.seq == seq && reply.is_none() {
                reply = Some(f);
            } else {
                let ghost before = frames(self.stray@);
                let ghost m = f@;
                self.stray.push(f);
                assert(frames(self.stray@) =~= before.push(m));
                assert(before.push(m) =~= was + strays_in(all.take(i as int), seq).push(m));
            }
            i += 1;
        }
        assert(all.take(all.len() as int) =~= all);
        reply
    }

    /// Take in bytes when nothing was asked.
    pub fn overhear(&mut self, data: &[u8])
        requires
            old(self)@.dec.resyncs + data@.len() <= u64::MAX,
            old(self)@.dec.bad_checksums + data@.len() <= u64::MAX,
        ensures
            final(self)@ == old(self)@.overheard(data@),
    {
        let got = self.dec.feed(data);
        let ghost all = frames(got@);
        let ghost was = frames(self.stray@);
        let ghost dec = self.dec@;
        let ghost seq = self.seq;
        let mut i: usize = 0;
        assert(was + all.take(0) =~= was);
        while i < got.len()
            invariant
                i <= got@.len(),
                all == frames(got@),
                self.seq == seq,
                self.dec@ == dec,
                frames(self.stray@) == was + all.take(i as int),
            decreases got@.len() - i,
        {
            let f = copy_frame(&got[i]);
            let ghost before = frames(self.stray@);
            let ghost m = f@;
            self.stray.push(f);
            assert(frames(self.stray@) =~= before.push(m));
            assert(all.take(i + 1) =~= all.take(i as int).push(m));
            assert(before.push(m) =~= was + all.take(i + 1));
            i += 1;
        }
        assert(all.take(all.len() as int) =~= all);
    }

    /// Everything unsolicited seen so far, cleared by the read.
    pub fn take_stray(&mut self) -> (r: Vec<Frame>)
        ensures
            frames(r@) == old(self)@.stray,
            final(self)@ == (LinkModel { stray: seq![], ..old(self)@ }),
    {
        let mut out: Vec<Frame> = Vec::new();
        std::mem::swap(&mut out, &mut self.stray);
        assert(frames(self.stray@) =~= seq![]);
        out
    }

    /// Ask the part to report the IR it receives.
    pub fn ir_capture(&mut self, on: bool) -> (r: Vec<u8>)
        ensures
            (final(self)@, r@) == old(self)@.asked(
                OP_IRIN_SET_CAPTURE,
                seq![
                    if on {
                        1u8
                    } else {
                        0u8
                    },
                ],
            ),
    {
        let p: [u8; 1] = [if on { 1 } else { 0 }];
        assert(p@ =~= seq![
            if on {
                1u8
            } else {
                0u8
            },
        ]);
        self.request(OP_IRIN_SET_CAPTURE, p.as_slice())
    }
}

/// Every frame that arrives is either the reply or kept.
pub proof fn law_no_frame_is_dropped(v: Seq<FrameModel>, seq: u8)
    ensures
        strays_in(v, seq).len() + (if reply_in(v, seq) is Some {
            1nat
        } else {
            0nat
        }) == v.len(),
        reply_in(v, seq) matches Some(f) ==> f.seq == seq,
    decreases v.len(),
{
    if v.len() > 0 {
        law_no_frame_is_dropped(v.drop_last(), seq);
    }
}

// ------------------------------------------------------------------------ questions

/// What the part can be asked.
#[derive(Debug, Clone, Copy, PartialEq, Eq, Structural)]
pub enum Question {
    Name,
    Version,
    Contacts,
    /// A relay's state, by its zero-based index.
    Relay(u8),
    Toggle(u8),
    MeasuredBaud,
}

/// How a question is put: its opcode, its payload, and how many milliseconds its
/// answer may take.
pub open spec fn asking(q: Question) -> (u8, Seq<u8>, u64) {
    match q {
        Question::Name => (OP_PRODUCT_NAME, seq![], 500),
        Question::Version => (OP_FIRMWARE_VERSION, seq![], 500),
        Question::Contacts => (OP_CONTACT_GET, seq![], 400),
        Question::Relay(i) => (OP_RELAY_GET, seq![i], 400),
        Question::Toggle(i) => (OP_RELAY_TOGGLE, seq![i], 600),
        Question::MeasuredBaud => (OP_AUTO_BAUD, seq![], 400),
    }
}

pub fn ask(q: Question) -> (r: (u8, Vec<u8>, u64))
    ensures
        (r.0, r.1@, r.2) == asking(q),
{
    let mut payload: Vec<u8> = Vec::new();
    match q {
        Question::Name => (OP_PRODUCT_NAME, payload, 500),
        Question::Version => (OP_FIRMWARE_VERSION, payload, 500),
        Question::Contacts => (OP_CONTACT_GET, payload, 400),
        Question::Relay(i) => {
            payload.push(i);
            (OP_RELAY_GET, payload, 400)
        },
        Question::Toggle(i) => {
            payload.push(i);
            (OP_RELAY_TOGGLE, payload, 600)
        },
        Question::MeasuredBaud => (OP_AUTO_BAUD, payload, 400),
    }
}

// -------------------------------------------------------------------------- replies

/// The link heard nothing in time.
pub const NO_REPLY: &'static str = "no reply from the IO MCU";

pub open spec fn be32(p: Seq<u8>) -> nat {
    p[0] as nat * 0x100_0000 + p[1] as nat * 0x1_0000 + p[2] as nat * 0x100 + p[3] as nat
}

fn read_be32(p: &Vec<u8>) -> (r: u32)
    requires
        p@.len() >= 4,
    ensures
        r == be32(p@),
{
    p[0] as u32 * 0x100_0000 + p[1] as u32 * 0x1_0000 + p[2] as u32 * 0x100 + p[3] as u32
}

/// The contacts: a big-endian bitmask, bit N is contact N, 1 is closed.
pub fn contacts(f: &Frame) -> (r: Result<u32, String>)
    ensures
        f@.payload.len() < 4 ==> r is Err && r->Err_0@ == "short CONTACT_STATE"@,
        f@.payload.len() >= 4 ==> r is Ok && r->Ok_0 == be32(f@.payload),
{
    if f.payload.len() < 4 {
        return Err(String::from_str("short CONTACT_STATE"));
    }
    Ok(read_be32(&f.payload))
}

/// The rate the part measured.
pub fn measured_baud(f: &Frame) -> (r: Result<u32, String>)
    ensures
        f@.payload.len() < 4 ==> r is Err && r->Err_0@ == "short AUTO_BAUD_RESP"@,
        f@.payload.len() >= 4 ==> r is Ok && r->Ok_0 == be32(f@.payload),
{
    if f.payload.len() < 4 {
        return Err(String::from_str("short AUTO_BAUD_RESP"));
    }
    Ok(read_be32(&f.payload))
}

/// The state of one relay, addressed by its zero-based index. A reply that
/// echoes another selector belongs to a different question and is refused.
pub open spec fn state_read(p: Seq<u8>, index: u8) -> Result<bool, Seq<char>> {
    if p.len() < 2 {
        Err("short RELAY_STATE"@)
    } else if p[0] != index {
        Err(
            "RELAY_STATE echoed selector 0x"@ + hex_fixed(p[0] as nat, 2) + ", asked 0x"@ + hex_fixed(
                index as nat,
                2,
            ),
        )
    } else {
        Ok(p[1] != 0)
    }
}

pub fn relay_state(f: &Frame, index: u8) -> (r: Result<bool, String>)
    ensures
        match state_read(f@.payload, index) {
            Ok(on) => r is Ok && r->Ok_0 == on,
            Err(e) => r is Err && r->Err_0@ == e,
        },
{
    let p = &f.payload;
    if p.len() < 2 {
        return Err(String::from_str("short RELAY_STATE"));
    }
    if p[0] != index {
        return Err(
            cat4(
                "RELAY_STATE echoed selector 0x",
                hex2_string(p[0]).as_str(),
                ", asked 0x",
                hex2_string(index).as_str(),
            ),
        );
    }
    Ok(p[1] != 0)
}

/// The states of the first relays, from the answer each of them gave; the first
/// answer that is refused decides.
pub open spec fn states_read(v: Seq<FrameModel>) -> Result<Seq<bool>, Seq<char>>
    decreases v.len(),
{
    if v.len() == 0 {
        Ok(seq![])
    } else {
        match states_read(v.drop_last()) {
            Err(e) => Err(e),
            Ok(on) => match state_read(v.last().payload, (v.len() - 1) as u8) {
                Ok(b) => Ok(on.push(b)),
                Err(e) => Err(e),
            },
        }
    }
}

proof fn lemma_first_refusal(v: Seq<FrameModel>, n: int)
    requires
        0 <= n <= v.len(),
        states_read(v.take(n)) is Err,
    ensures
        states_read(v) == states_read(v.take(n)),
    decreases v.len(),
{
    if n < v.len() {
        assert(v.drop_last().take(n) =~= v.take(n));
        lemma_first_refusal(v.drop_last(), n);
    } else {
        assert(v.take(n) =~= v);
    }
}

pub fn relays(replies: &Vec<Frame>) -> (r: Result<Vec<bool>, String>)
    requires
        replies@.len() <= 255,
    ensures
        match states_read(frames(replies@)) {
            Ok(on) => r is Ok && r->Ok_0@ == on,
            Err(e) => r is Err && r->Err_0@ == e,
        },
{
    let mut out: Vec<bool> = Vec::new();
    let mut i: usize = 0;
    let ghost v = frames(replies@);
    assert(v.take(0) =~= seq![]);
    while i < replies.len()
        invariant
            i <= replies@.len() <= 255,
            v == frames(replies@),
            states_read(v.take(i as int)) == Ok::<Seq<bool>, Seq<char>>(out@),
        decreases replies@.len() - i,
    {
        assert(v.take(i + 1).drop_last() =~= v.take(i as int));
        assert(v.take(i + 1).last() == replies@[i as int]@);
        match relay_state(&replies[i], i as u8) {
            Ok(on) => out.push(on),
            Err(e) => {
                proof {
                    lemma_first_refusal(v, i + 1);
                }
                return Err(e);
            },
        }
        i += 1;
    }
    assert(v.take(v.len() as int) =~= v);
    Ok(out)
}

/// Where a relay is after a toggle.
pub fn relay_toggle(f: &Frame) -> (r: Result<bool, String>)
    ensures
        f@.payload.len() < 2 ==> r is Err && r->Err_0@ == "short RELAY_STATE after toggle"@,
        f@.payload.len() >= 2 ==> r is Ok && r->Ok_0 == (f@.payload[1] != 0),
{
    if f.payload.len() < 2 {
        return Err(String::from_str("short RELAY_STATE after toggle"));
    }
    Ok(f.payload[1] != 0)
}

pub open spec fn bool_text(b: bool) -> Seq<char> {
    if b {
        "true"@
    } else {
        "false"@
    }
}

fn bool_str(b: bool) -> (r: &'static str)
    ensures
        r@ == bool_text(b),
{
    if b {
        "true"
    } else {
        "false"
    }
}

/// A relay that was toggled and did not land where it was asked to is reported,
/// not passed off as done.
pub open spec fn landed(index: u8, want: bool, now: bool) -> Result<bool, Seq<char>> {
    if now == want {
        Ok(now)
    } else {
        Err(
            "relay "@ + dec(index as nat) + " did not change: asked for "@ + bool_text(want) + ", still "@ + bool_text(
                now,
            ),
        )
    }
}

fn land(index: u8, want: bool, now: bool) -> (r: Result<bool, String>)
    ensures
        outcome(r) == landed(index, want, now),
{
    if now != want {
        return Err(
            cat6(
                "relay ",
                dec_string(index as u64).as_str(),
                " did not change: asked for ",
                bool_str(want),
                ", still ",
                bool_str(now),
            ),
        );
    }
    Ok(now)
}

/// What became of driving a relay.
pub open spec fn outcome(r: Result<bool, String>) -> Result<bool, Seq<char>> {
    match r {
        Ok(on) => Ok(on),
        Err(e) => Err(e@),
    }
}

/// How far the driving of a relay has come.
#[derive(Debug, Clone, Copy, PartialEq, Eq, Structural)]
pub enum SetAt {
    Start,
    /// Its state was asked for.
    Asked,
    /// It was told to toggle.
    Toggled,
}

/// What driving a relay does next.
#[derive(Debug)]
pub enum SetTurn {
    /// Put this question, and come back with its answer.
    Ask(SetAt, Question),
    Done(Result<bool, String>),
}

pub ghost enum SetTurnModel {
    Ask(SetAt, Question),
    Done(Result<bool, Seq<char>>),
}

impl View for SetTurn {
    type V = SetTurnModel;

    open spec fn view(&self) -> SetTurnModel {
        match self {
            SetTurn::Ask(at, q) => SetTurnModel::Ask(*at, *q),
            SetTurn::Done(r) => SetTurnModel::Done(outcome(*r)),
        }
    }
}

/// The answer to a question, or why there is none.
pub open spec fn answered(reply: Result<Frame, String>) -> Result<FrameModel, Seq<char>> {
    match reply {
        Ok(f) => Ok(f@),
        Err(e) => Err(e@),
    }
}

/// Driving a relay to a state, where there is only a toggle: its state is asked for
/// first, a failed read sends nothing more, an equal state is the answer, a mismatch
/// toggles once, and where the relay then is decides.
pub open spec fn set_turn(
    at: SetAt,
    index: u8,
    want: bool,
    reply: Result<FrameModel, Seq<char>>,
) -> SetTurnModel {
    match at {
        SetAt::Start => SetTurnModel::Ask(SetAt::Asked, Question::Relay(index)),
        SetAt::Asked => match reply {
            Err(e) => SetTurnModel::Done(Err(e)),
            Ok(f) => match state_read(f.payload, index) {
                Err(e) => SetTurnModel::Done(Err(e)),
                Ok(now) => if now == want {
                    SetTurnModel::Done(Ok(want))
                } else {
                    SetTurnModel::Ask(SetAt::Toggled, Question::Toggle(index))
                },
            },
        },
        SetAt::Toggled => match reply {
            Err(e) => SetTurnModel::Done(Err(e)),
            Ok(f) => if f.payload.len() < 2 {
                SetTurnModel::Done(Err("short RELAY_STATE after toggle"@))
            } else {
                SetTurnModel::Done(landed(index, want, f.payload[1] != 0))
            },
        },
    }
}

/// One step of driving a relay to a state, given the answer to the question before
/// it. Nothing was asked before the first step, which looks at no answer.
pub fn relay_set(at: SetAt, index: u8, want: bool, reply: Result<Frame, String>) -> (r: SetTurn)
    ensures
        r@ == set_turn(at, index, want, answered(reply)),
{
    match at {
        SetAt::Start => SetTurn::Ask(SetAt::Asked, Question::Relay(index)),
        SetAt::Asked => match reply {
            Err(e) => SetTurn::Done(Err(e)),
            Ok(f) => match relay_state(&f, index) {
                Err(e) => SetTurn::Done(Err(e)),
                Ok(now) => {
                    if now == want {
                        SetTurn::Done(Ok(want))
                    } else {
                        SetTurn::Ask(SetAt::Toggled, Question::Toggle(index))
                    }
                },
            },
        },
        SetAt::Toggled => match reply {
            Err(e) => SetTurn::Done(Err(e)),
            Ok(f) => match relay_toggle(&f) {
                Err(e) => SetTurn::Done(Err(e)),
                Ok(now) => SetTurn::Done(land(index, want, now)),
            },
        },
    }
}

/// A frame in which a relay says where it is.
pub open spec fn says(f: FrameModel, index: u8, on: bool) -> bool {
    f.payload.len() >= 2 && f.payload[0] == index && (f.payload[1] != 0) == on
}

/// A relay driven to a state lands there, and the same request again, however often
/// it is replayed, toggles nothing: a relay that stands where it is wanted is asked
/// where it is and no more, and one that stands elsewhere is toggled once, after
/// which it stands where it is wanted.
pub proof fn law_asking_twice_changes_nothing(
    index: u8,
    want: bool,
    first: Result<FrameModel, Seq<char>>,
    here: FrameModel,
    there: FrameModel,
)
    requires
        says(here, index, want),
        says(there, index, !want),
    ensures
        set_turn(SetAt::Start, index, want, first) == SetTurnModel::Ask(SetAt::Asked, Question::Relay(index)),
        set_turn(SetAt::Asked, index, want, Ok(here)) == SetTurnModel::Done(Ok(want)),
        set_turn(SetAt::Asked, index, want, Ok(there)) == SetTurnModel::Ask(SetAt::Toggled, Question::Toggle(index)),
        set_turn(SetAt::Toggled, index, want, Ok(here)) == SetTurnModel::Done(Ok(want)),
        set_turn(SetAt::Toggled, index, want, Ok(there)) == SetTurnModel::Done(landed(index, want, !want)),
{
}

/// A toggle goes out only after a reply that says that the relay stands elsewhere:
/// a read that failed, or that answers another question, sends nothing.
pub proof fn law_no_toggle_without_a_reading(
    at: SetAt,
    index: u8,
    want: bool,
    reply: Result<FrameModel, Seq<char>>,
)
    requires
        set_turn(at, index, want, reply) matches SetTurnModel::Ask(_, Question::Toggle(_)),
    ensures
        at == SetAt::Asked,
        reply is Ok && says(reply->Ok_0, index, !want),
        set_turn(at, index, want, reply) == SetTurnModel::Ask(SetAt::Toggled, Question::Toggle(index)),
{
}

/// The part's own name and version.
pub fn identify(name: &Frame, version: &Frame) -> (r: (String, String))
    ensures
        r.0@ == lossy_text(name@.payload),
        r.1@ == lossy_text(version@.payload),
{
    (lossy(name.payload.as_slice()), lossy(version.payload.as_slice()))
}

proof fn lemma_be32_bits(a: u8, b: u8, c: u8, d: u8, n: u32)
    by (bit_vector)
    requires
        n < 32,
    ensures
        ({
            let m = (a as u32 * 0x100_0000 + b as u32 * 0x1_0000 + c as u32 * 0x100 + d as u32) as u32;
            let at = if n < 8 {
                d
            } else if n < 16 {
                c
            } else if n < 24 {
                b
            } else {
                a
            };
            ((m >> n) & 1 == 1) == ((at >> ((n % 8) as u8)) & 1 == 1)
        }),
{
}

/// Contact `n` is bit `n` of the mask, and that is bit `n % 8` of a payload byte
/// counted from the last: the first eight contacts stand in the fourth byte, its
/// lowest bit first. So a closed contact sets its own bit and no other.
pub proof fn law_a_contact_is_its_bit(payload: Seq<u8>, mask: u32, n: int)
    requires
        payload.len() >= 4,
        0 <= n < 32,
        mask == be32(payload),
    ensures
        crate::iod::gpio_io::bit(mask, n) <==> (payload[3 - n / 8] >> ((n % 8) as u8)) & 1 == 1,
{
    let i = n as u32;
    lemma_be32_bits(payload[0], payload[1], payload[2], payload[3], i);
    let m = (payload[0] as u32 * 0x100_0000 + payload[1] as u32 * 0x1_0000 + payload[2] as u32 * 0x100
        + payload[3] as u32) as u32;
    assert(m == mask);
    assert((i % 8) as u8 == (n % 8) as u8);
}

/// A rate sent in big-endian bytes is the rate that is read.
pub proof fn law_a_sent_rate_is_read(rate: u32)
    ensures
        be32(
            seq![
                (rate / 0x100_0000) as u8,
                (rate / 0x1_0000 % 256) as u8,
                (rate / 0x100 % 256) as u8,
                (rate % 256) as u8,
            ],
        ) == rate,
{
}

/// The opcode that answers a question: the next one up, but for the measured rate.
pub open spec fn reply_opcode(opcode: u8) -> u8 {
    if opcode == OP_AUTO_BAUD {
        OP_AUTO_BAUD_RESP
    } else {
        (opcode + 1) as u8
    }
}

/// Questions do not get mixed up: two different ones never go out as the same
/// frame, and only one about a relay carries anything, which is that relay's index.
pub proof fn law_questions_are_told_apart(a: Question, b: Question)
    ensures
        asking(a).0 == asking(b).0 && asking(a).1 == asking(b).1 ==> a == b,
        asking(a).1 == (match a {
            Question::Relay(i) => seq![i],
            Question::Toggle(i) => seq![i],
            _ => seq![],
        }),
        forall|q: Question| #[trigger] reply_opcode(asking(q).0) != asking(a).0 || q == a,
{
    assert(asking(a).1 == asking(b).1 ==> asking(a).1.len() == asking(b).1.len());
    match (a, b) {
        (Question::Relay(i), Question::Relay(j)) => {
            assert(asking(a).1 == asking(b).1 ==> asking(a).1[0] == asking(b).1[0]);
        },
        (Question::Toggle(i), Question::Toggle(j)) => {
            assert(asking(a).1 == asking(b).1 ==> asking(a).1[0] == asking(b).1[0]);
        },
        _ => {},
    }
}

/// The reading of a relay is the second byte of a reply that names the relay asked
/// about in the first; the states of a row of relays are those readings, in order.
pub proof fn law_each_relay_is_read_from_its_own_reply(v: Seq<FrameModel>, i: int)
    requires
        states_read(v) is Ok,
        v.len() <= 256,
        0 <= i < v.len(),
    ensures
        states_read(v)->Ok_0.len() == v.len(),
        says(v[i], i as u8, states_read(v)->Ok_0[i]),
    decreases v.len(),
{
    if i < v.len() - 1 {
        law_each_relay_is_read_from_its_own_reply(v.drop_last(), i);
    } else if v.len() > 1 {
        law_each_relay_is_read_from_its_own_reply(v.drop_last(), 0);
    }
}

} // verus!
