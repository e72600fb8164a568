//! A failure with enough structure that each surface can render it its own way:
//! HTTP wants a status, MQTT a short code, the control socket both.
use crate::text::cat2;
use vstd::prelude::*;
use vstd::string::*;

verus! {

#[derive(Debug)]
pub enum Fault {
    /// The board has no such thing at all.
    NoSuch(String),
    /// The board has one, but not that index, or not those arguments.
    Bad(String),
    /// The kernel is not offering this board's IO lines; the text says what to
    /// go and look at.
    NoChip(String),
    /// A real path that is not built yet.
    Todo(String),
    /// A local device would not open or would not talk.
    Io(String),
}

pub ghost enum FaultModel {
    NoSuch(Seq<char>),
    Bad(Seq<char>),
    NoChip(Seq<char>),
    Todo(Seq<char>),
    Io(Seq<char>),
}

impl View for Fault {
    type V = FaultModel;

    open spec fn view(&self) -> FaultModel {
        match self {
            Fault::NoSuch(s) => FaultModel::NoSuch(s@),
            Fault::Bad(s) => FaultModel::Bad(s@),
            Fault::NoChip(s) => FaultModel::NoChip(s@),
            Fault::Todo(s) => FaultModel::Todo(s@),
            Fault::Io(s) => FaultModel::Io(s@),
        }
    }
}

impl FaultModel {
    pub open spec fn code(self) -> Seq<char> {
        match self {
            FaultModel::NoSuch(_) => "no_such"@,
            FaultModel::Bad(_) => "bad_request"@,
            FaultModel::NoChip(_) => "no_chip"@,
            FaultModel::Todo(_) => "not_implemented"@,
            FaultModel::Io(_) => "io_error"@,
        }
    }

    pub open spec fn status(self) -> u16 {
        match self {
            FaultModel::NoSuch(_) => 404,
            FaultModel::Bad(_) => 400,
            FaultModel::NoChip(_) => 503,
            FaultModel::Todo(_) => 501,
            FaultModel::Io(_) => 502,
        }
    }

    pub open spec fn message(self) -> Seq<char> {
        match self {
            FaultModel::NoSuch(s) => s,
            FaultModel::Bad(s) => s,
            FaultModel::NoChip(s) => "no GPIO lines named relay1/contact1 — "@ + s,
            FaultModel::Todo(s) => s,
            FaultModel::Io(s) => s,
        }
    }
}

impl Fault {
    pub fn code(&self) -> (r: &'static str)
        ensures
            r@ == self@.code(),
    {
        match self {
            Fault::NoSuch(_) => "no_such",
            Fault::Bad(_) => "bad_request",
            Fault::NoChip(_) => "no_chip",
            Fault::Todo(_) => "not_implemented",
            Fault::Io(_) => "io_error",
        }
    }

    pub fn status(&self) -> (r: u16)
        ensures
            r == self@.status(),
    {
        match self {
            Fault::NoSuch(_) => 404,
            Fault::Bad(_) => 400,
            Fault::NoChip(_) => 503,
            Fault::Todo(_) => 501,
            Fault::Io(_) => 502,
        }
    }

    /// The failure in words.
    pub fn message(&self) -> (r: String)
        ensures
            r@ == self@.message(),
    {
        match self {
            Fault::NoSuch(s) => s.clone(),
            Fault::Bad(s) => s.clone(),
            Fault::NoChip(s) => cat2("no GPIO lines named relay1/contact1 — ", s.as_str()),
            Fault::Todo(s) => s.clone(),
            Fault::Io(s) => s.clone(),
        }
    }
}

pub fn no_such(s: &str) -> (r: Fault)
    ensures
        r@ == FaultModel::NoSuch(s@),
{
    Fault::NoSuch(String::from_str(s))
}

pub fn bad(s: &str) -> (r: Fault)
    ensures
        r@ == FaultModel::Bad(s@),
{
    Fault::Bad(String::from_str(s))
}

} // verus!
