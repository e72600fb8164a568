//! A minimal read-only TFTP server for the netboot bring-up.
//!
//! It implements what CEFDK's client uses: a read request in, data and
//! acknowledgements out, blocks of 512 bytes. Writes are refused.
use crate::num::two_bytes;
use crate::text::{
    bytes_of, cat2, contains, contains_str, debug_string, debug_text, lossy, lossy_text, to_chars, utf8,
};
use vstd::prelude::*;
use vstd::slice::{slice_subrange, slice_to_vec};
use vstd::string::*;

verus! {

pub const OP_RRQ: u16 = 1;

pub const OP_WRQ: u16 = 2;

pub const OP_DATA: u16 = 3;

pub const OP_ACK: u16 = 4;

pub const OP_ERROR: u16 = 5;

/// The one block size served.
pub const BLOCK: usize = 512;

/// How often one block is sent before the client counts as gone.
pub const TRIES: u8 = 5;

pub open spec fn word16(b: Seq<u8>, i: int) -> nat {
    b[i] as nat * 256 + b[i + 1] as nat
}

fn push16(p: &mut Vec<u8>, n: u16)
    ensures
        final(p)@ == old(p)@ + two_bytes(n as nat),
{
    let ghost was = p@;
    p.push((n / 256) as u8);
    p.push((n % 256) as u8);
    assert(p@ =~= was + two_bytes(n as nat));
}

fn read16(b: &[u8], i: usize) -> (r: u16)
    requires
        i + 2 <= b.len(),
    ensures
        r == word16(b@, i as int),
{
    b[i] as u16 * 256 + b[i + 1] as u16
}

fn extend(p: &mut Vec<u8>, bytes: &[u8])
    ensures
        final(p)@ == old(p)@ + bytes@,
{
    let mut more: Vec<u8> = slice_to_vec(bytes);
    p.append(&mut more);
}

// --------------------------------------------------------------------- requests

/// What kind of request a datagram is, and for a read the file.
#[derive(Debug)]
pub enum Request {
    Read { filename: String, octet: bool },
    Write,
}

pub ghost enum RequestModel {
    Read { filename: Seq<char>, octet: bool },
    Write,
}

impl View for Request {
    type V = RequestModel;

    open spec fn view(&self) -> RequestModel {
        match self {
            Request::Read { filename, octet } => RequestModel::Read { filename: filename@, octet: *octet },
            Request::Write => RequestModel::Write,
        }
    }
}

/// The position of the first zero byte at or after `i`, or the end.
pub open spec fn zero_at(b: Seq<u8>, i: int) -> int
    decreases b.len() - i,
{
    if i < 0 || i >= b.len() {
        b.len() as int
    } else if b[i] == 0 {
        i
    } else {
        zero_at(b, i + 1)
    }
}

fn find_zero(b: &[u8], from: usize) -> (r: usize)
    requires
        from <= b@.len(),
    ensures
        r == zero_at(b@, from as int),
        from <= r <= b@.len(),
{
    let mut i: usize = from;
    while i < b.len()
        invariant
            from <= i <= b@.len(),
            zero_at(b@, from as int) == zero_at(b@, i as int),
        decreases b@.len() - i,
    {
        if b[i] == 0 {
            return i;
        }
        i += 1;
    }
    i
}

/// `octet`, in any case.
pub open spec fn is_octet(m: Seq<u8>) -> bool {
    m.len() == 5 && (m[0] == 0x6f || m[0] == 0x4f) && (m[1] == 0x63 || m[1] == 0x43) && (m[2] == 0x74 || m[2]
        == 0x54) && (m[3] == 0x65 || m[3] == 0x45) && (m[4] == 0x74 || m[4] == 0x54)
}

/// A request: an opcode, then for a read a zero-terminated name and mode. The
/// mode may be cut off; the name may not be empty.
pub open spec fn request_of(pkt: Seq<u8>) -> Option<RequestModel> {
    if pkt.len() < 2 {
        None
    } else if word16(pkt, 0) == OP_WRQ {
        Some(RequestModel::Write)
    } else if word16(pkt, 0) == OP_RRQ {
        let e = zero_at(pkt, 2);
        if e == 2 {
            None
        } else {
            let mode = if e < pkt.len() {
                pkt.subrange(e + 1, zero_at(pkt, e + 1))
            } else {
                seq![]
            };
            Some(
                RequestModel::Read { filename: lossy_text(pkt.subrange(2, e)), octet: is_octet(mode) },
            )
        }
    } else {
        None
    }
}

/// Parse a read or write request. Nothing for anything else.
pub fn parse_request(pkt: &[u8]) -> (r: Option<Request>)
    ensures
        match r {
            Some(q) => request_of(pkt@) == Some(q@),
            None => request_of(pkt@) is None,
        },
{
    if pkt.len() < 2 {
        return None;
    }
    let opcode: u16 = read16(pkt, 0);
    if opcode == OP_WRQ {
        return Some(Request::Write);
    }
    if opcode != OP_RRQ {
        return None;
    }
    let e: usize = find_zero(pkt, 2);
    if e == 2 {
        return None;
    }
    let filename = lossy(slice_subrange(pkt, 2, e));
    let octet: bool = if e < pkt.len() {
        let f: usize = find_zero(pkt, e + 1);
        let m: &[u8] = slice_subrange(pkt, e + 1, f);
        m.len() == 5 && (m[0] == 0x6f || m[0] == 0x4f) && (m[1] == 0x63 || m[1] == 0x43) && (m[2] == 0x74
            || m[2] == 0x54) && (m[3] == 0x65 || m[3] == 0x45) && (m[4] == 0x74 || m[4] == 0x54)
    } else {
        false
    };
    Some(Request::Read { filename, octet })
}

/// Names that would climb out of the served directory. Only flat names are
/// served.
pub open spec fn unsafe_name(name: Seq<char>) -> bool {
    name.len() == 0 || contains(name, "/"@) || contains(name, "\\"@) || contains(name, ".."@)
}

pub fn is_unsafe_name(name: &str) -> (r: bool)
    ensures
        r == unsafe_name(name@),
{
    let chars = to_chars(name);
    chars.len() == 0 || contains_str(chars.as_slice(), "/") || contains_str(chars.as_slice(), "\\")
        || contains_str(chars.as_slice(), "..")
}

// ---------------------------------------------------------------------- packets

pub open spec fn data_bytes(block: nat, chunk: Seq<u8>) -> Seq<u8> {
    two_bytes(OP_DATA as nat) + two_bytes(block) + chunk
}

/// A data packet: opcode, block number, up to 512 bytes.
pub fn data_packet(block: u16, chunk: &[u8]) -> (r: Vec<u8>)
    ensures
        r@ == data_bytes(block as nat, chunk@),
{
    let mut p: Vec<u8> = Vec::new();
    push16(&mut p, OP_DATA);
    push16(&mut p, block);
    extend(&mut p, chunk);
    assert(p@ =~= data_bytes(block as nat, chunk@));
    p
}

pub open spec fn ack_of(pkt: Seq<u8>) -> Option<nat> {
    if pkt.len() < 4 || word16(pkt, 0) != OP_ACK {
        None
    } else {
        Some(word16(pkt, 2))
    }
}

/// The block number that a packet acknowledges, if it is an acknowledgement.
pub fn parse_ack(pkt: &[u8]) -> (r: Option<u16>)
    ensures
        match r {
            Some(b) => ack_of(pkt@) == Some(b as nat),
            None => ack_of(pkt@) is None,
        },
{
    if pkt.len() < 4 || read16(pkt, 0) != OP_ACK {
        return None;
    }
    Some(read16(pkt, 2))
}

pub open spec fn error_bytes(code: nat, msg: Seq<char>) -> Seq<u8> {
    (two_bytes(OP_ERROR as nat) + two_bytes(code) + utf8(msg)).push(0)
}

/// An error packet: opcode, code, zero-terminated message.
pub fn error_packet(code: u16, msg: &str) -> (r: Vec<u8>)
    ensures
        r@ == error_bytes(code as nat, msg@),
{
    let mut p: Vec<u8> = Vec::new();
    push16(&mut p, OP_ERROR);
    push16(&mut p, code);
    let m = bytes_of(msg);
    extend(&mut p, m.as_slice());
    p.push(0);
    assert(p@ =~= error_bytes(code as nat, msg@));
    p
}

// ------------------------------------------------------------- what a request gets

/// What the server does with one datagram.
#[derive(Debug)]
pub enum Served {
    /// Not a request that is handled.
    Ignored,
    /// Send this back; and say this, if anything.
    Refused { packet: Vec<u8>, said: Option<String> },
    /// Send this file from the served directory.
    File(String),
}

/// A read of a flat name is served, any other read is an access violation, and
/// nothing is ever written.
pub fn serve_request(pkt: &[u8]) -> (r: Served)
    ensures
        match request_of(pkt@) {
            None => r is Ignored,
            Some(RequestModel::Write) => r matches Served::Refused { packet, said } && packet@
                == error_bytes(2, "read-only server"@) && said is None,
            Some(RequestModel::Read { filename, .. }) => if unsafe_name(filename) {
                r matches Served::Refused { packet, said } && packet@ == error_bytes(2, "access violation"@)
                    && (said matches Some(s) && s@ == "tftp: refused unsafe name "@ + debug_text(filename))
            } else {
                r matches Served::File(name) && name@ == filename
            },
        },
{
    match parse_request(pkt) {
        None => Served::Ignored,
        Some(Request::Write) => Served::Refused { packet: error_packet(2, "read-only server"), said: None },
        Some(Request::Read { filename, octet }) => {
            if is_unsafe_name(filename.as_str()) {
                Served::Refused {
                    packet: error_packet(2, "access violation"),
                    said: Some(
                        cat2("tftp: refused unsafe name ", debug_string(filename.as_str()).as_str()),
                    ),
                }
            } else {
                Served::File(filename)
            }
        },
    }
}

/// Nothing outside the served directory is ever sent: a name that is served is
/// not empty and has no separator and no parent reference in it.
pub proof fn law_only_flat_names_are_served(name: Seq<char>)
    requires
        !unsafe_name(name),
    ensures
        name.len() > 0,
        forall|i: int| 0 <= i < name.len() ==> #[trigger] name[i] != '/' && name[i] != '\\',
        forall|i: int| 0 <= i < name.len() - 1 ==> #[trigger] name[i] != '.' || name[i + 1] != '.',
{
    reveal_strlit("/");
    reveal_strlit("\\");
    assert forall|i: int| 0 <= i < name.len() implies #[trigger] name[i] != '/' && name[i] != '\\' by {
        if name[i] == '/' {
            assert(name.subrange(i, i + 1) =~= "/"@);
            assert(crate::text::at(name, "/"@, i));
        }
        if name[i] == '\\' {
            assert(name.subrange(i, i + 1) =~= "\\"@);
            assert(crate::text::at(name, "\\"@, i));
        }
    }
    reveal_strlit("..");
    assert forall|i: int| 0 <= i < name.len() - 1 implies #[trigger] name[i] != '.' || name[i + 1] != '.' by {
        if name[i] == '.' && name[i + 1] == '.' {
            assert(name.subrange(i, i + 2) =~= ".."@);
            assert(crate::text::at(name, ".."@, i));
        }
    }
}

// ------------------------------------------------------------------ one transfer

/// A transfer in progress: which block is on the wire and how often it was
/// sent.
#[derive(Debug)]
pub struct Transfer<'a> {
    data: &'a [u8],
    block: u16,
    off: usize,
    tries: u8,
}

pub ghost struct TransferModel {
    pub data: Seq<u8>,
    pub block: nat,
    pub off: nat,
    pub tries: nat,
}

impl<'a> View for Transfer<'a> {
    type V = TransferModel;

    closed spec fn view(&self) -> TransferModel {
        TransferModel {
            data: self.data@,
            block: self.block as nat,
            off: self.off as nat,
            tries: self.tries as nat,
        }
    }
}

/// What came back for the block on the wire.
#[derive(Debug)]
pub enum Heard {
    /// A datagram, and whether it came from the client.
    Datagram { bytes: Vec<u8>, from_peer: bool },
    Silence,
}

/// What to do next.
#[derive(Debug, Clone, Copy, PartialEq, Eq, Structural)]
pub enum SendNext {
    /// Send the current packet (again).
    Send,
    Done,
    /// The client is gone.
    GaveUp,
}

pub const GAVE_UP: &'static str = "no ACK from client";

pub const STOPPING: &'static str = "server stopping";

impl TransferModel {
    /// The current block starts on a block boundary inside the file, and its
    /// number counts the blocks, modulo 16 bits.
    pub open spec fn wf(self) -> bool {
        &&& self.off <= self.data.len()
        &&& self.off % 512 == 0
        &&& self.block == (self.off / 512 + 1) % 65536
        &&& self.tries < TRIES
    }

    pub open spec fn end(self) -> int {
        if self.off + 512 < self.data.len() {
            (self.off + 512) as int
        } else {
            self.data.len() as int
        }
    }

    pub open spec fn chunk(self) -> Seq<u8> {
        self.data.subrange(self.off as int, self.end())
    }

    pub open spec fn acked_by(self, h: Heard) -> bool {
        h matches Heard::Datagram { bytes, from_peer } && from_peer && ack_of(bytes@) == Some(self.block)
    }

    /// An acknowledgement of the current block moves on to the next one, or ends
    /// the transfer after a short block; anything else is one more try.
    pub open spec fn hear(self, h: Heard) -> (TransferModel, SendNext) {
        if self.acked_by(h) {
            if self.chunk().len() < 512 {
                (self, SendNext::Done)
            } else {
                (
                    TransferModel {
                        off: self.end() as nat,
                        block: (self.block + 1) % 65536,
                        tries: 0,
                        ..self
                    },
                    SendNext::Send,
                )
            }
        } else if self.tries + 1 < TRIES {
            (TransferModel { tries: self.tries + 1, ..self }, SendNext::Send)
        } else {
            (self, SendNext::GaveUp)
        }
    }
}

impl<'a> Transfer<'a> {
    pub fn new(data: &'a [u8]) -> (r: Transfer<'a>)
        ensures
            r@ == (TransferModel { data: data@, block: 1, off: 0, tries: 0 }),
            r@.wf(),
    {
        Transfer { data, block: 1, off: 0, tries: 0 }
    }

    fn end(&self) -> (r: usize)
        requires
            self@.wf(),
        ensures
            r == self@.end(),
            self.off <= r <= self.data@.len(),
    {
        if self.data.len() - self.off > 512 {
            self.off + 512
        } else {
            self.data.len()
        }
    }

    /// The packet for the current block.
    pub fn packet(&self) -> (r: Vec<u8>)
        requires
            self@.wf(),
        ensures
            r@ == data_bytes(self@.block, self@.chunk()),
    {
        let e: usize = self.end();
        data_packet(self.block, slice_subrange(self.data, self.off, e))
    }

    /// What came back for the current block.
    pub fn hear(&mut self, h: Heard) -> (r: SendNext)
        requires
            old(self)@.wf(),
        ensures
            (final(self)@, r) == old(self)@.hear(h),
            final(self)@.wf(),
    {
        let acked: bool = match &h {
            Heard::Datagram { bytes, from_peer } => *from_peer && match parse_ack(bytes.as_slice()) {
                Some(b) => b == self.block,
                None => false,
            },
            Heard::Silence => false,
        };
        if acked {
            let e: usize = self.end();
            if e - self.off < BLOCK {
                return SendNext::Done;
            }
            self.off = e;
            self.block = if self.block == 65535 { 0 } else { self.block + 1 };
            self.tries = 0;
            return SendNext::Send;
        }
        if self.tries + 1 < TRIES {
            self.tries = self.tries + 1;
            SendNext::Send
        } else {
            SendNext::GaveUp
        }
    }
}

/// The chunks of a transfer from an offset on, in the order they are sent.
pub open spec fn chunks_from(data: Seq<u8>, off: int) -> Seq<Seq<u8>>
    decreases data.len() - off + 1,
{
    if off < 0 || off > data.len() {
        seq![]
    } else if off + 512 > data.len() {
        seq![data.subrange(off, data.len() as int)]
    } else {
        seq![data.subrange(off, off + 512)] + chunks_from(data, off + 512)
    }
}

/// A transfer that is acknowledged to the end hands over the file, no more and
/// no less: its chunks joined are the file. Every chunk but the last is full
/// and the last is short, which is how the client knows that it ended; a file
/// of whole blocks ends in an empty one.
pub proof fn law_the_chunks_are_the_file(data: Seq<u8>, off: int)
    requires
        0 <= off <= data.len(),
    ensures
        chunks_from(data, off).flatten() == data.subrange(off, data.len() as int),
        chunks_from(data, off).len() > 0,
        chunks_from(data, off).last().len() < 512,
        forall|i: int| 0 <= i < chunks_from(data, off).len() - 1 ==> (#[trigger] chunks_from(data, off)[i]).len() == 512,
    decreases data.len() - off,
{
    let all = chunks_from(data, off);
    if off + 512 > data.len() {
        assert(all.drop_first() =~= seq![]);
        assert(all.flatten() =~= all.first() + all.drop_first().flatten());
        assert(all.flatten() =~= data.subrange(off, data.len() as int));
    } else {
        law_the_chunks_are_the_file(data, off + 512);
        let rest = chunks_from(data, off + 512);
        assert(all.drop_first() =~= rest);
        assert(all.flatten() =~= all.first() + rest.flatten());
        assert(all.flatten() =~= data.subrange(off, data.len() as int));
        assert(all.last() == rest.last());
        assert forall|i: int| 0 <= i < all.len() - 1 implies (#[trigger] all[i]).len() == 512 by {
            if i > 0 {
                assert(all[i] == rest[i - 1]);
            }
        }
    }
}

/// The chunk on the wire is always the next chunk of the file.
pub proof fn law_the_next_chunk_is_on_the_wire(t: TransferModel)
    requires
        t.wf(),
    ensures
        t.chunk() == chunks_from(t.data, t.off as int)[0],
        t.chunk().len() == 512 ==> chunks_from(t.data, t.off as int).skip(1) == chunks_from(
            t.data,
            t.off as int + 512,
        ),
{
    if t.off + 512 <= t.data.len() {
        assert(chunks_from(t.data, t.off as int).skip(1) =~= chunks_from(t.data, t.off as int + 512));
    }
}

} // verus!
