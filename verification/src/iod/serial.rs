//! Host UART bridge: one port, many viewers.
//!
//! A port has one session. The first client opens it, every client sees the same
//! stream, and any of them can type into it. New arrivals get the recent history
//! replayed, so joining mid-way does not mean staring at a blank screen.
use crate::iod::b64::{encode, encoded};
use crate::iod::ops::nothing;
use crate::json::{members, object, put, with, Json, JsonModel, Member};
use crate::num::{dec, dec_string};
use crate::text::{bytes_of, cat2, cat3, cat5, cat8, utf8};
use vstd::prelude::*;
use vstd::string::*;

verus! {

/// How much history a joining client is given.
pub const SCROLLBACK: usize = 32768;

/// One shared session.
#[derive(Debug)]
pub struct Session {
    pub index: usize,
    pub dev: String,
    pub baud: u32,
    pub scrollback: Vec<u8>,
    pub clients: usize,
}

pub ghost struct SessionModel {
    pub index: nat,
    pub dev: Seq<char>,
    pub baud: nat,
    pub scrollback: Seq<u8>,
    pub clients: nat,
}

impl View for Session {
    type V = SessionModel;

    open spec fn view(&self) -> SessionModel {
        SessionModel {
            index: self.index as nat,
            dev: self.dev@,
            baud: self.baud as nat,
            scrollback: self.scrollback@,
            clients: self.clients as nat,
        }
    }
}

/// The end of a stream, as much of it as is kept.
pub open spec fn kept(s: Seq<u8>) -> Seq<u8> {
    if s.len() > SCROLLBACK {
        s.skip(s.len() - SCROLLBACK as int)
    } else {
        s
    }
}

/// Keeping the end after each chunk is keeping the end of the whole stream.
pub proof fn law_history_is_the_end_of_the_stream(s: Seq<u8>, chunk: Seq<u8>)
    ensures
        kept(kept(s) + chunk) == kept(s + chunk),
        kept(s).len() <= SCROLLBACK,
{
    assert(kept(kept(s) + chunk) =~= kept(s + chunk));
}

/// A path under this port in the state mirror and the topics, by the number on
/// the panel.
pub open spec fn port_path(index: nat, what: Seq<char>) -> Seq<char> {
    "serial/"@ + dec(index + 1) + "/"@ + what
}

impl Session {
    pub fn new(index: usize, dev: &str, baud: u32) -> (r: Session)
        ensures
            r@ == (SessionModel {
                index: index as nat,
                dev: dev@,
                baud: baud as nat,
                scrollback: seq![],
                clients: 0,
            }),
    {
        let r = Session { index, dev: String::from_str(dev), baud, scrollback: Vec::new(), clients: 0 };
        assert(r.scrollback@ =~= seq![]);
        r
    }

    pub fn baud(&self) -> (r: u32)
        ensures
            r == self@.baud,
    {
        self.baud
    }

    pub fn set_baud(&mut self, baud: u32)
        ensures
            final(self)@ == (SessionModel { baud: baud as nat, ..old(self)@ }),
    {
        self.baud = baud;
    }

    /// What a joining client is shown first.
    pub fn history(&self) -> (r: &Vec<u8>)
        ensures
            r@ == self@.scrollback,
    {
        &self.scrollback
    }

    pub fn viewers(&self) -> (r: usize)
        ensures
            r == self@.clients,
    {
        self.clients
    }

    /// One more viewer. The count is state: it is how one installer is told that
    /// somebody else is on the same console.
    pub fn join(&mut self) -> (r: usize)
        requires
            old(self)@.clients < usize::MAX,
        ensures
            final(self)@ == (SessionModel { clients: old(self)@.clients + 1, ..old(self)@ }),
            r == old(self)@.clients + 1,
    {
        self.clients = self.clients + 1;
        self.clients
    }

    /// One viewer less, and how many are left. A viewer that leaves without having
    /// joined takes the count round its end, and is told of none.
    pub fn leave(&mut self) -> (r: usize)
        ensures
            final(self)@ == (SessionModel {
                clients: if old(self)@.clients == 0 {
                    usize::MAX as nat
                } else {
                    (old(self)@.clients - 1) as nat
                },
                ..old(self)@
            }),
            r == if old(self)@.clients == 0 {
                0
            } else {
                old(self)@.clients - 1
            },
    {
        if self.clients == 0 {
            self.clients = usize::MAX;
            0
        } else {
            self.clients = self.clients - 1;
            self.clients
        }
    }

    /// Bytes arrived at the port: remember the end of them.
    pub fn received(&mut self, chunk: &[u8])
        ensures
            final(self)@ == (SessionModel { scrollback: kept(old(self)@.scrollback + chunk@), ..old(self)@ }),
    {
        let ghost all = self.scrollback@ + chunk@;
        let have: usize = self.scrollback.len();
        let mut drop: usize = 0;
        if chunk.len() > SCROLLBACK {
            drop = have;
        } else if have > SCROLLBACK - chunk.len() {
            drop = have - (SCROLLBACK - chunk.len());
        }
        let from: usize = if chunk.len() > SCROLLBACK { chunk.len() - SCROLLBACK } else { 0 };
        let mut out: Vec<u8> = Vec::new();
        let ghost want = kept(all);
        let mut i: usize = drop;
        while i < have
            invariant
                drop <= i <= have,
                have == self.scrollback@.len(),
                out@ == self.scrollback@.subrange(drop as int, i as int),
            decreases have - i,
        {
            out.push(self.scrollback[i]);
            assert(out@ =~= self.scrollback@.subrange(drop as int, i + 1));
            i += 1;
        }
        let mut j: usize = from;
        let ghost head = out@;
        while j < chunk.len()
            invariant
                from <= j <= chunk@.len(),
                out@ == head + chunk@.subrange(from as int, j as int),
            decreases chunk@.len() - j,
        {
            out.push(chunk[j]);
            assert(out@ =~= head + chunk@.subrange(from as int, j + 1));
            j += 1;
        }
        assert(out@ =~= want);
        self.scrollback = out;
    }

    /// The greeting of a joining client.
    pub fn hello(&self, viewers: usize) -> (r: Vec<u8>)
        ensures
            r@ == utf8(
                "\r\n[iod] "@ + self@.dev + " @ "@ + dec(self@.baud) + " baud — "@ + dec(viewers as nat)
                    + " viewer"@ + (if viewers == 1 {
                    ""@
                } else {
                    "s"@
                }) + "\r\n"@,
            ),
    {
        let s = cat8(
            "\r\n[iod] ",
            self.dev.as_str(),
            " @ ",
            dec_string(self.baud as u64).as_str(),
            " baud — ",
            dec_string(viewers as u64).as_str(),
            " viewer",
            if viewers == 1 {
                ""
            } else {
                "s"
            },
        );
        bytes_of(cat2(s.as_str(), "\r\n").as_str())
    }

    /// What the viewers are told when the port was reopened at a new rate.
    pub fn reopened(&self, baud: u32) -> (r: Vec<u8>)
        ensures
            r@ == utf8("\r\n[iod] "@ + self@.dev + " reopened at "@ + dec(baud as nat) + " baud\r\n"@),
    {
        bytes_of(
            cat5(
                "\r\n[iod] ",
                self.dev.as_str(),
                " reopened at ",
                dec_string(baud as u64).as_str(),
                " baud\r\n",
            ).as_str(),
        )
    }

    /// What they are told when it could not be: a silent dead session is worse.
    pub fn reopen_failed(&self, why: &str) -> (r: Vec<u8>)
        ensures
            r@ == utf8("\r\n[iod] cannot reopen "@ + self@.dev + ": "@ + why@ + "\r\n"@),
    {
        bytes_of(cat5("\r\n[iod] cannot reopen ", self.dev.as_str(), ": ", why, "\r\n").as_str())
    }
}

/// Where a port's rate is in the state mirror.
pub fn baud_path(index: usize) -> (r: String)
    requires
        index < usize::MAX,
    ensures
        r@ == port_path(index as nat, "baud"@),
{
    path_of(index, "baud")
}

/// Where a port's viewer count is in the state mirror.
pub fn viewers_path(index: usize) -> (r: String)
    requires
        index < usize::MAX,
    ensures
        r@ == port_path(index as nat, "viewers"@),
{
    path_of(index, "viewers")
}

/// The topic of what a port receives.
pub fn rx_topic(index: usize) -> (r: String)
    requires
        index < usize::MAX,
    ensures
        r@ == port_path(index as nat, "rx"@),
{
    path_of(index, "rx")
}

fn path_of(index: usize, what: &str) -> (r: String)
    requires
        index < usize::MAX,
    ensures
        r@ == port_path(index as nat, what@),
{
    let n = dec_string((index + 1) as u64);
    let s = cat3("serial/", n.as_str(), "/");
    cat2(s.as_str(), what)
}

/// Received bytes as an event: base64, because they need not be text.
pub open spec fn rx_doc(chunk: Seq<u8>) -> JsonModel {
    JsonModel::Object(with(nothing(), "b64"@, JsonModel::Text(encoded(chunk))))
}

pub fn rx_event(chunk: &[u8]) -> (r: Json)
    ensures
        r@ == rx_doc(chunk@),
{
    let mut o: Vec<Member> = Vec::new();
    assert(members(o@) =~= seq![]);
    put(&mut o, "b64", Json::Text(encode(chunk)));
    object(o)
}

} // verus!
