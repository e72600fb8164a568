//! The IO microcontroller link: DLE/STX framing over a UART.
//!
//! Every frame is
//!
//! ```text
//! 10 02 | opcode | seq | flags | len16 BE | payload... | checksum
//! ```
//!
//! and the checksum is the negated 8-bit sum of everything after STX. Any 0x10
//! inside the body is escaped by doubling it. The reply opcode is the request
//! opcode + 1, with one exception noted at `OP_AUTO_BAUD`.
use vstd::prelude::*;

verus! {

pub const DLE: u8 = 0x10;

pub const STX: u8 = 0x02;

pub const FLAG_RESPONSE: u8 = 0x02;

pub const OP_PRODUCT_NAME: u8 = 0x24;

pub const OP_FIRMWARE_VERSION: u8 = 0x34;

pub const OP_RELAY_GET: u8 = 0x54;

pub const OP_RELAY_TOGGLE: u8 = 0x56;

pub const OP_IROUT_SEND: u8 = 0x66;

pub const OP_CONTACT_GET: u8 = 0x74;

pub const OP_IRIN_SET_CAPTURE: u8 = 0x77;

pub const OP_IRIN_CAPTURED: u8 = 0x97;

/// The exception: 0xD2 is answered by 0xD7, not 0xD3. Its payload is a 32-bit
/// big-endian baud rate, measured, so it may be slightly off nominal.
pub const OP_AUTO_BAUD: u8 = 0xD2;

pub const OP_AUTO_BAUD_RESP: u8 = 0xD7;

/// One message, without its framing.
#[derive(Debug)]
pub struct Frame {
    pub opcode: u8,
    pub seq: u8,
    pub flags: u8,
    pub payload: Vec<u8>,
}

pub ghost struct FrameModel {
    pub opcode: u8,
    pub seq: u8,
    pub flags: u8,
    pub payload: Seq<u8>,
}

impl View for Frame {
    type V = FrameModel;

    open spec fn view(&self) -> FrameModel {
        FrameModel { opcode: self.opcode, seq: self.seq, flags: self.flags, payload: self.payload@ }
    }
}

/// The models of a list of frames.
pub open spec fn frames(v: Seq<Frame>) -> Seq<FrameModel> {
    v.map_values(|f: Frame| f@)
}

// --------------------------------------------------------------------- checksum

pub open spec fn byte_sum(b: Seq<u8>) -> nat
    decreases b.len(),
{
    if b.len() == 0 {
        0
    } else {
        byte_sum(b.drop_last()) + b.last() as nat
    }
}

/// The byte that makes the 8-bit sum of the body and itself zero.
pub open spec fn checksum_of(body: Seq<u8>) -> u8 {
    ((256 - byte_sum(body) % 256) % 256) as u8
}

pub fn checksum(body: &[u8]) -> (r: u8)
    ensures
        r == checksum_of(body@),
{
    let mut sum: u8 = 0;
    let mut i: usize = 0;
    while i < body.len()
        invariant
            i <= body@.len(),
            sum == byte_sum(body@.take(i as int)) % 256,
        decreases body@.len() - i,
    {
        assert(body@.take(i + 1).drop_last() =~= body@.take(i as int));
        sum = sum.wrapping_add(body[i]);
        i += 1;
    }
    assert(body@.take(body@.len() as int) =~= body@);
    0u8.wrapping_sub(sum)
}

/// The body and its checksum sum to zero in eight bits.
pub proof fn law_checksum_cancels(body: Seq<u8>)
    ensures
        byte_sum(body.push(checksum_of(body))) % 256 == 0,
{
    assert(body.push(checksum_of(body)).drop_last() =~= body);
}

// --------------------------------------------------------------------- encoding

/// A frame's body: header, payload length in sixteen bits, payload, checksum.
pub open spec fn body_of(f: FrameModel) -> Seq<u8> {
    let n = f.payload.len();
    let head = seq![f.opcode, f.seq, f.flags, (n / 256 % 256) as u8, (n % 256) as u8] + f.payload;
    head.push(checksum_of(head))
}

/// Every DLE doubled.
pub open spec fn stuffed(b: Seq<u8>) -> Seq<u8>
    decreases b.len(),
{
    if b.len() == 0 {
        seq![]
    } else if b.last() == DLE {
        stuffed(b.drop_last()).push(DLE).push(DLE)
    } else {
        stuffed(b.drop_last()).push(b.last())
    }
}

/// The bytes on the wire.
pub open spec fn wire(f: FrameModel) -> Seq<u8> {
    seq![DLE, STX] + stuffed(body_of(f))
}

/// Build a wire frame, applying DLE stuffing to the body.
pub fn encode(opcode: u8, seq: u8, flags: u8, payload: &[u8]) -> (r: Vec<u8>)
    ensures
        r@ == wire(FrameModel { opcode, seq, flags, payload: payload@ }),
{
    let ghost f = FrameModel { opcode, seq, flags, payload: payload@ };
    let n: usize = payload.len();
    let mut body: Vec<u8> = Vec::new();
    body.push(opcode);
    body.push(seq);
    body.push(flags);
    body.push((n / 256 % 256) as u8);
    body.push((n % 256) as u8);
    let mut tail: Vec<u8> = vstd::slice::slice_to_vec(payload);
    body.append(&mut tail);
    let ghost head = seq![opcode, seq, flags, (n / 256 % 256) as u8, (n % 256) as u8] + payload@;
    assert(body@ =~= head);
    let ck: u8 = checksum(body.as_slice());
    body.push(ck);
    assert(body@ == body_of(f));

    let mut out: Vec<u8> = Vec::new();
    out.push(DLE);
    out.push(STX);
    let mut i: usize = 0;
    assert(out@ =~= seq![DLE, STX] + stuffed(body@.take(0)));
    while i < body.len()
        invariant
            i <= body@.len(),
            out@ == seq![DLE, STX] + stuffed(body@.take(i as int)),
        decreases body@.len() - i,
    {
        let ghost before = out@;
        let b: u8 = body[i];
        assert(body@.take(i + 1).drop_last() =~= body@.take(i as int));
        out.push(b);
        if b == DLE {
            out.push(DLE);
        }
        assert(out@ =~= seq![DLE, STX] + stuffed(body@.take(i + 1)));
        i += 1;
    }
    assert(body@.take(body@.len() as int) =~= body@);
    out
}

// --------------------------------------------------------------------- decoding

#[derive(Debug, Clone, Copy, PartialEq, Eq, Structural)]
pub enum Hunt {
    /// Hunting for DLE.
    Idle,
    /// Saw DLE, want STX.
    Stx,
    Body,
    /// Saw DLE in the body; a second means a literal 0x10.
    BodyDle,
}

/// Incremental receiver. Fed bytes as they arrive; yields whole, checksum-valid
/// frames. Malformed input resynchronises rather than wedging: a UART sees line
/// noise and half-frames on every reset.
pub struct Decoder {
    state: Hunt,
    body: Vec<u8>,
    pub resyncs: u64,
    pub bad_checksums: u64,
}

pub ghost struct DecoderModel {
    pub state: Hunt,
    pub body: Seq<u8>,
    pub resyncs: nat,
    pub bad_checksums: nat,
}

impl View for Decoder {
    type V = DecoderModel;

    closed spec fn view(&self) -> DecoderModel {
        DecoderModel {
            state: self.state,
            body: self.body@,
            resyncs: self.resyncs as nat,
            bad_checksums: self.bad_checksums as nat,
        }
    }
}

/// How long a body is, once its length field has arrived.
pub open spec fn want(body: Seq<u8>) -> nat {
    (body[3] as nat) * 256 + body[4] as nat + 6
}

/// The frame a whole body spells.
pub open spec fn frame_of(body: Seq<u8>) -> FrameModel {
    FrameModel {
        opcode: body[0],
        seq: body[1],
        flags: body[2],
        payload: body.subrange(5, want(body) - 1),
    }
}

impl DecoderModel {
    /// Has the whole body arrived?
    pub open spec fn whole(self) -> bool {
        self.body.len() >= 5 && self.body.len() >= want(self.body)
    }

    /// The checksum of a whole body holds.
    pub open spec fn sound(self) -> bool {
        checksum_of(self.body.take(want(self.body) - 1)) == self.body[want(self.body) - 1]
    }

    /// After a body byte: a whole body ends the frame, good or bad, and the hunt
    /// starts over.
    pub open spec fn completed(self) -> (DecoderModel, Seq<FrameModel>) {
        if !self.whole() {
            (self, seq![])
        } else if self.sound() {
            (DecoderModel { state: Hunt::Idle, body: seq![], ..self }, seq![frame_of(self.body)])
        } else {
            (
                DecoderModel {
                    state: Hunt::Idle,
                    body: seq![],
                    bad_checksums: self.bad_checksums + 1,
                    ..self
                },
                seq![],
            )
        }
    }

    /// One byte of the stream.
    pub open spec fn step(self, b: u8) -> (DecoderModel, Seq<FrameModel>) {
        match self.state {
            Hunt::Idle => if b == DLE {
                (DecoderModel { state: Hunt::Stx, ..self }, seq![])
            } else {
                (self, seq![])
            },
            Hunt::Stx => if b == STX {
                (DecoderModel { state: Hunt::Body, body: seq![], ..self }, seq![])
            } else if b == DLE {
                (self, seq![])
            } else {
                (DecoderModel { state: Hunt::Idle, resyncs: self.resyncs + 1, ..self }, seq![])
            },
            Hunt::Body => if b == DLE {
                (DecoderModel { state: Hunt::BodyDle, ..self }, seq![])
            } else {
                (DecoderModel { body: self.body.push(b), ..self }).completed()
            },
            Hunt::BodyDle => if b == DLE {
                (DecoderModel { state: Hunt::Body, body: self.body.push(DLE), ..self }).completed()
            } else if b == STX {
                (
                    DecoderModel {
                        state: Hunt::Body,
                        body: seq![],
                        resyncs: self.resyncs + 1,
                        ..self
                    },
                    seq![],
                )
            } else {
                (DecoderModel { state: Hunt::Idle, resyncs: self.resyncs + 1, ..self }, seq![])
            },
        }
    }

    /// A run of bytes: the state it ends in and the frames that came out.
    pub open spec fn run(self, data: Seq<u8>) -> (DecoderModel, Seq<FrameModel>)
        decreases data.len(),
    {
        if data.len() == 0 {
            (self, seq![])
        } else {
            let (m, out) = self.run(data.drop_last());
            let (n, last) = m.step(data.last());
            (n, out + last)
        }
    }
}

impl Decoder {
    pub fn new() -> (r: Decoder)
        ensures
            r@ == (DecoderModel { state: Hunt::Idle, body: seq![], resyncs: 0, bad_checksums: 0 }),
    {
        Decoder { state: Hunt::Idle, body: Vec::new(), resyncs: 0, bad_checksums: 0 }
    }

    /// Feed a chunk of the stream; the frames it completed come back in order.
    pub fn feed(&mut self, data: &[u8]) -> (r: Vec<Frame>)
        requires
            old(self)@.resyncs + data@.len() <= u64::MAX,
            old(self)@.bad_checksums + data@.len() <= u64::MAX,
        ensures
            final(self)@ == old(self)@.run(data@).0,
            frames(r@) == old(self)@.run(data@).1,
    {
        let mut out: Vec<Frame> = Vec::new();
        let mut i: usize = 0;
        let ghost start = self@;
        assert(data@.take(0) =~= seq![]);
        assert(frames(out@) =~= seq![]);
        while i < data.len()
            invariant
                i <= data@.len(),
                start.resyncs + data@.len() <= u64::MAX,
                start.bad_checksums + data@.len() <= u64::MAX,
                self@.resyncs <= start.resyncs + i,
                self@.bad_checksums <= start.bad_checksums + i,
                self@ == start.run(data@.take(i as int)).0,
                frames(out@) == start.run(data@.take(i as int)).1,
            decreases data@.len() - i,
        {
            let ghost m = self@;
            let b: u8 = data[i];
            assert(data@.take(i + 1).drop_last() =~= data@.take(i as int));
            let ghost before = out@;
            let got: Option<Frame> = self.feed_byte(b);
            if let Some(f) = got {
                out.push(f);
            }
            assert(frames(out@) =~= frames(before) + m.step(b).1);
            i += 1;
        }
        assert(data@.take(data@.len() as int) =~= data@);
        out
    }

    fn feed_byte(&mut self, b: u8) -> (r: Option<Frame>)
        requires
            old(self)@.resyncs < u64::MAX,
            old(self)@.bad_checksums < u64::MAX,
        ensures
            final(self)@ == old(self)@.step(b).0,
            match r {
                Some(f) => old(self)@.step(b).1 == seq![f@],
                None => old(self)@.step(b).1 == Seq::<FrameModel>::empty(),
            },
            final(self)@.resyncs <= old(self)@.resyncs + 1,
            final(self)@.bad_checksums <= old(self)@.bad_checksums + 1,
    {
        match self.state {
            Hunt::Idle => {
                if b == DLE {
                    self.state = Hunt::Stx;
                }
                None
            },
            Hunt::Stx => {
                if b == STX {
                    self.body.clear();
                    self.state = Hunt::Body;
                } else if b != DLE {
                    self.resyncs = self.resyncs + 1;
                    self.state = Hunt::Idle;
                }
                None
            },
            Hunt::Body => {
                if b == DLE {
                    self.state = Hunt::BodyDle;
                    None
                } else {
                    self.body.push(b);
                    self.try_complete()
                }
            },
            Hunt::BodyDle => {
                if b == DLE {
                    self.body.push(DLE);
                    self.state = Hunt::Body;
                    self.try_complete()
                } else if b == STX {
                    self.resyncs = self.resyncs + 1;
                    self.body.clear();
                    self.state = Hunt::Body;
                    None
                } else {
                    self.resyncs = self.resyncs + 1;
                    self.state = Hunt::Idle;
                    None
                }
            },
        }
    }

    fn try_complete(&mut self) -> (r: Option<Frame>)
        requires
            old(self)@.bad_checksums < u64::MAX,
        ensures
            final(self)@ == old(self)@.completed().0,
            match r {
                Some(f) => old(self)@.completed().1 == seq![f@],
                None => old(self)@.completed().1 == Seq::<FrameModel>::empty(),
            },
            final(self)@.resyncs == old(self)@.resyncs,
            final(self)@.bad_checksums <= old(self)@.bad_checksums + 1,
    {
        if self.body.len() < 5 {
            return None;
        }
        let len: usize = self.body[3] as usize * 256 + self.body[4] as usize;
        let want: usize = 5 + len + 1;
        if self.body.len() < want {
            return None;
        }
        let ck: u8 = self.body[want - 1];
        let checked: &[u8] = vstd::slice::slice_subrange(self.body.as_slice(), 0, want - 1);
        assert(checked@ =~= self.body@.take(want - 1));
        let mut out: Option<Frame> = None;
        if checksum(checked) == ck {
            let payload: Vec<u8> = vstd::slice::slice_to_vec(
                vstd::slice::slice_subrange(self.body.as_slice(), 5, want - 1),
            );
            out = Some(
                Frame { opcode: self.body[0], seq: self.body[1], flags: self.body[2], payload },
            );
        } else {
            self.bad_checksums = self.bad_checksums + 1;
        }
        self.body.clear();
        self.state = Hunt::Idle;
        out
    }
}

// ------------------------------------------------------------------------- laws

proof fn lemma_run_push(m: DecoderModel, data: Seq<u8>, b: u8)
    ensures
        m.run(data.push(b)).0 == m.run(data).0.step(b).0,
        m.run(data.push(b)).1 == m.run(data).1 + m.run(data).0.step(b).1,
{
    assert(data.push(b).drop_last() =~= data);
}

proof fn lemma_run_add(m: DecoderModel, a: Seq<u8>, b: Seq<u8>)
    ensures
        m.run(a + b).0 == m.run(a).0.run(b).0,
        m.run(a + b).1 == m.run(a).1 + m.run(a).0.run(b).1,
    decreases b.len(),
{
    if b.len() == 0 {
        assert(a + b =~= a);
        assert(m.run(a).1 + Seq::<FrameModel>::empty() =~= m.run(a).1);
    } else {
        let init = b.drop_last();
        lemma_run_add(m, a, init);
        assert((a + b).drop_last() =~= a + init);
        assert((m.run(a).1 + m.run(a).0.run(init).1) + m.run(a + init).0.step(b.last()).1 =~= m.run(a).1 + (
        m.run(a).0.run(init).1 + m.run(a + init).0.step(b.last()).1));
    }
}

proof fn lemma_body_len(f: FrameModel)
    requires
        f.payload.len() <= 0xffff,
    ensures
        body_of(f).len() == f.payload.len() + 6,
        want(body_of(f)) == body_of(f).len(),
        frame_of(body_of(f)) == f,
        checksum_of(body_of(f).drop_last()) == body_of(f).last(),
{
    let n = f.payload.len();
    let head = seq![f.opcode, f.seq, f.flags, (n / 256 % 256) as u8, (n % 256) as u8] + f.payload;
    assert(body_of(f).drop_last() =~= head);
    assert(body_of(f)[3] == (n / 256 % 256) as u8);
    assert(body_of(f)[4] == (n % 256) as u8);
    assert(body_of(f).subrange(5, want(body_of(f)) - 1) =~= f.payload);
}

/// Inside a frame, the stuffed bytes of a part of the body leave the decoder
/// holding exactly that part, and complete nothing before the last byte.
proof fn lemma_body_prefix(m: DecoderModel, f: FrameModel, k: int)
    requires
        m.state == Hunt::Body,
        m.body.len() == 0,
        f.payload.len() <= 0xffff,
        0 <= k < body_of(f).len(),
    ensures
        m.run(stuffed(body_of(f).take(k))) == ((DecoderModel { body: body_of(f).take(k), ..m }), Seq::<
            FrameModel,
        >::empty()),
    decreases k,
{
    let body = body_of(f);
    lemma_body_len(f);
    if k == 0 {
        assert(body.take(0) =~= seq![]);
        assert(m.body =~= body.take(0));
    } else {
        lemma_body_prefix(m, f, k - 1);
        let part = body.take(k - 1);
        let b = body[k - 1];
        assert(body.take(k).drop_last() =~= part);
        assert(part.push(b) =~= body.take(k));
        let at = DecoderModel { body: part, ..m };
        let next = DecoderModel { body: body.take(k), ..m };
        assert(!next.whole()) by {
            if next.body.len() >= 5 {
                assert(next.body[3] == body[3] && next.body[4] == body[4]);
            }
        }
        let sent = stuffed(part);
        if b == DLE {
            lemma_run_push(m, sent, DLE);
            lemma_run_push(m, sent.push(DLE), DLE);
            assert(at.step(DLE).0.step(DLE) == (next, Seq::<FrameModel>::empty()));
            assert(m.run(stuffed(body.take(k))).1 =~= seq![]);
        } else {
            lemma_run_push(m, sent, b);
            assert(at.step(b) == (next, Seq::<FrameModel>::empty()));
            assert(m.run(stuffed(body.take(k))).1 =~= seq![]);
        }
    }
}

proof fn lemma_whole_body(m: DecoderModel, f: FrameModel)
    requires
        m.state == Hunt::Body,
        m.body.len() == 0,
        f.payload.len() <= 0xffff,
    ensures
        m.run(stuffed(body_of(f))) == ((DecoderModel { state: Hunt::Idle, body: seq![], ..m }), seq![f]),
{
    let body = body_of(f);
    lemma_body_len(f);
    let k = body.len() - 1;
    lemma_body_prefix(m, f, k);
    let part = body.take(k);
    let b = body.last();
    assert(body.drop_last() =~= part);
    assert(part.push(b) =~= body);
    let at = DecoderModel { body: part, ..m };
    let next = DecoderModel { body, ..m };
    assert(next.whole());
    assert(next.sound()) by {
        assert(body.take(want(body) - 1) =~= body.drop_last());
    }
    let done = (DecoderModel { state: Hunt::Idle, body: Seq::<u8>::empty(), ..m }, seq![f]);
    let sent = stuffed(part);
    if b == DLE {
        lemma_run_push(m, sent, DLE);
        lemma_run_push(m, sent.push(DLE), DLE);
        assert(at.step(DLE).0.step(DLE) == done);
        assert(m.run(stuffed(body)).1 =~= seq![f]);
    } else {
        lemma_run_push(m, sent, b);
        assert(at.step(b) == done);
        assert(m.run(stuffed(body)).1 =~= seq![f]);
    }
}

/// What is encoded comes out of the decoder: that one frame, nothing else, and
/// the hunt starts over. It holds from every state but the middle of an escape,
/// so also after noise, and after a frame that was cut off (which counts as one
/// resynchronisation). The payload's length has to fit its sixteen bits.
pub proof fn law_encode_decode(m: DecoderModel, f: FrameModel)
    requires
        m.state != Hunt::BodyDle,
        f.payload.len() <= 0xffff,
    ensures
        m.run(wire(f)).1 == seq![f],
        m.run(wire(f)).0 == (DecoderModel {
            state: Hunt::Idle,
            body: seq![],
            resyncs: m.resyncs + if m.state == Hunt::Body {
                1nat
            } else {
                0
            },
            ..m
        }),
{
    let lead = seq![DLE, STX];
    lemma_run_add(m, lead, stuffed(body_of(f)));
    let e = Seq::<u8>::empty();
    lemma_run_push(m, e, DLE);
    lemma_run_push(m, e.push(DLE), STX);
    assert(lead =~= e.push(DLE).push(STX));
    let in_body = m.run(lead).0;
    assert(m.run(lead).1 =~= seq![]);
    lemma_whole_body(in_body, f);
    assert(m.run(wire(f)).1 =~= seq![f]);
}

/// How the stream is cut into chunks does not matter: feeding two chunks gives
/// what feeding them as one would.
pub proof fn law_chunks_do_not_matter(m: DecoderModel, a: Seq<u8>, b: Seq<u8>)
    ensures
        m.run(a + b).0 == m.run(a).0.run(b).0,
        m.run(a + b).1 == m.run(a).1 + m.run(a).0.run(b).1,
{
    lemma_run_add(m, a, b);
}

} // verus!
