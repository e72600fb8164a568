//! What every flow is made of: progress events, operations on a box, turns.
use crate::text::utf8;
use vstd::prelude::*;
use vstd::string::*;

verus! {

/// Progress, so that a command line can print it and a window can render a live
/// log from the same flow.
#[derive(Debug)]
pub enum Event {
    /// A headline step the user should see.
    Step(String),
    /// A sub-line (register values, script commands, verifications).
    Detail(String),
    /// Something went wrong but the flow is handling it.
    Warn(String),
    /// The tool cannot continue until the user does something physical. This is
    /// sticky: a front end keeps it on screen until an event clears it.
    Await { title: String, instruction: String },
    /// Live evidence from the wire, so a wait does not look like a hang.
    Observed(String),
    /// The awaited physical action happened.
    Resolved(String),
}

pub ghost enum EventModel {
    Step(Seq<char>),
    Detail(Seq<char>),
    Warn(Seq<char>),
    Await { title: Seq<char>, instruction: Seq<char> },
    Observed(Seq<char>),
    Resolved(Seq<char>),
}

impl View for Event {
    type V = EventModel;

    open spec fn view(&self) -> EventModel {
        match self {
            Event::Step(s) => EventModel::Step(s@),
            Event::Detail(s) => EventModel::Detail(s@),
            Event::Warn(s) => EventModel::Warn(s@),
            Event::Await { title, instruction } => EventModel::Await {
                title: title@,
                instruction: instruction@,
            },
            Event::Observed(s) => EventModel::Observed(s@),
            Event::Resolved(s) => EventModel::Resolved(s@),
        }
    }
}

impl EventModel {
    /// It ends a pending `Await`.
    pub open spec fn clears(self) -> bool {
        self is Resolved || self is Step
    }
}

impl Event {
    pub fn step(s: String) -> (r: Event)
        ensures
            r@ == EventModel::Step(s@),
    {
        Event::Step(s)
    }

    pub fn detail(s: String) -> (r: Event)
        ensures
            r@ == EventModel::Detail(s@),
    {
        Event::Detail(s)
    }

    pub fn warn(s: String) -> (r: Event)
        ensures
            r@ == EventModel::Warn(s@),
    {
        Event::Warn(s)
    }

    pub fn observed(s: String) -> (r: Event)
        ensures
            r@ == EventModel::Observed(s@),
    {
        Event::Observed(s)
    }

    pub fn resolved(s: String) -> (r: Event)
        ensures
            r@ == EventModel::Resolved(s@),
    {
        Event::Resolved(s)
    }

    pub fn await_user(title: &str, instruction: &str) -> (r: Event)
        ensures
            r@ == (EventModel::Await { title: title@, instruction: instruction@ }),
    {
        Event::Await { title: String::from_str(title), instruction: String::from_str(instruction) }
    }

    /// True when this event ends a pending `Await`, so a front end does not have
    /// to know the variants to decide whether to drop its banner.
    pub fn clears_await(&self) -> (r: bool)
        ensures
            r == self@.clears(),
    {
        match self {
            Event::Resolved(_) => true,
            Event::Step(_) => true,
            _ => false,
        }
    }
}

/// The events of one turn, in order.
#[derive(Debug)]
pub struct Log {
    pub events: Vec<Event>,
}

impl View for Log {
    type V = Seq<EventModel>;

    open spec fn view(&self) -> Seq<EventModel> {
        self.events@.map_values(|e: Event| e@)
    }
}

impl Log {
    pub fn new() -> (r: Log)
        ensures
            r@ == Seq::<EventModel>::empty(),
    {
        let r = Log { events: Vec::new() };
        assert(r@ =~= Seq::<EventModel>::empty());
        r
    }

    pub fn put(&mut self, e: Event)
        ensures
            final(self)@ == old(self)@.push(e@),
    {
        let ghost was = self@;
        self.events.push(e);
        assert(self@ =~= was.push(e@));
    }

    pub fn step(&mut self, s: String)
        ensures
            final(self)@ == old(self)@.push(EventModel::Step(s@)),
    {
        self.put(Event::Step(s));
    }

    pub fn detail(&mut self, s: String)
        ensures
            final(self)@ == old(self)@.push(EventModel::Detail(s@)),
    {
        self.put(Event::Detail(s));
    }

    pub fn warn(&mut self, s: String)
        ensures
            final(self)@ == old(self)@.push(EventModel::Warn(s@)),
    {
        self.put(Event::Warn(s));
    }

    pub fn resolved(&mut self, s: String)
        ensures
            final(self)@ == old(self)@.push(EventModel::Resolved(s@)),
    {
        self.put(Event::Resolved(s));
    }
}

// -------------------------------------------------------------------- operations

/// Bytes to stream to the box.
#[derive(Debug)]
pub enum Data<'a> {
    Slice(&'a [u8]),
    Owned(Vec<u8>),
}

impl<'a> View for Data<'a> {
    type V = Seq<u8>;

    open spec fn view(&self) -> Seq<u8> {
        match self {
            Data::Slice(s) => s@,
            Data::Owned(v) => v@,
        }
    }
}

/// One thing to do on the box.
#[derive(Debug)]
pub enum Op<'a> {
    /// Run a command and hand back what it printed. With `must`, an exit status
    /// other than zero is a failure.
    Run { command: String, must: bool },
    /// Run a command with these bytes on its standard input.
    Put { data: Data<'a>, command: String },
    /// Read a file; a file that is absent or empty is a failure.
    Read { path: String },
}

pub ghost enum OpModel {
    Run { command: Seq<char>, must: bool },
    Put { data: Seq<u8>, command: Seq<char> },
    Read { path: Seq<char> },
}

impl<'a> View for Op<'a> {
    type V = OpModel;

    open spec fn view(&self) -> OpModel {
        match self {
            Op::Run { command, must } => OpModel::Run { command: command@, must: *must },
            Op::Put { data, command } => OpModel::Put { data: data@, command: command@ },
            Op::Read { path } => OpModel::Read { path: path@ },
        }
    }
}

/// What comes after the events of a turn.
#[derive(Debug)]
pub enum Next<'a> {
    Do(Op<'a>),
    Done,
    Failed(String),
}

pub ghost enum NextModel {
    Do(OpModel),
    Done,
    Failed(Seq<char>),
}

impl<'a> View for Next<'a> {
    type V = NextModel;

    open spec fn view(&self) -> NextModel {
        match self {
            Next::Do(op) => NextModel::Do(op@),
            Next::Done => NextModel::Done,
            Next::Failed(why) => NextModel::Failed(why@),
        }
    }
}

/// One turn of a flow: what to tell the user, and what follows.
#[derive(Debug)]
pub struct Turn<'a> {
    pub log: Log,
    pub next: Next<'a>,
}

pub ghost struct TurnModel {
    pub log: Seq<EventModel>,
    pub next: NextModel,
}

impl<'a> View for Turn<'a> {
    type V = TurnModel;

    open spec fn view(&self) -> TurnModel {
        TurnModel { log: self.log@, next: self.next@ }
    }
}

/// What the box answered: the output, or what went wrong.
pub type Reply = Result<String, String>;

pub open spec fn reply_model(r: Reply) -> Result<Seq<char>, Seq<char>> {
    match r {
        Ok(s) => Ok(s@),
        Err(e) => Err(e@),
    }
}

// ------------------------------------------------------------------ short turns

pub open spec fn quiet() -> Seq<EventModel> {
    Seq::empty()
}

pub open spec fn failed(why: Seq<char>) -> TurnModel {
    TurnModel { log: quiet(), next: NextModel::Failed(why) }
}

pub open spec fn failed_after(log: Seq<EventModel>, why: Seq<char>) -> TurnModel {
    TurnModel { log, next: NextModel::Failed(why) }
}

pub open spec fn running(log: Seq<EventModel>, command: Seq<char>, must: bool) -> TurnModel {
    TurnModel { log, next: NextModel::Do(OpModel::Run { command, must }) }
}

pub open spec fn putting(log: Seq<EventModel>, data: Seq<u8>, command: Seq<char>) -> TurnModel {
    TurnModel { log, next: NextModel::Do(OpModel::Put { data, command }) }
}

pub open spec fn reading(log: Seq<EventModel>, path: Seq<char>) -> TurnModel {
    TurnModel { log, next: NextModel::Do(OpModel::Read { path }) }
}

pub open spec fn done(log: Seq<EventModel>) -> TurnModel {
    TurnModel { log, next: NextModel::Done }
}

pub fn fail<'a>(why: String) -> (r: Turn<'a>)
    ensures
        r@ == failed(why@),
{
    Turn { log: Log::new(), next: Next::Failed(why) }
}

pub fn fail_after<'a>(log: Log, why: String) -> (r: Turn<'a>)
    ensures
        r@ == failed_after(log@, why@),
{
    Turn { log, next: Next::Failed(why) }
}

pub fn run<'a>(log: Log, command: String, must: bool) -> (r: Turn<'a>)
    ensures
        r@ == running(log@, command@, must),
{
    Turn { log, next: Next::Do(Op::Run { command, must }) }
}

pub fn put_slice<'a>(log: Log, data: &'a [u8], command: String) -> (r: Turn<'a>)
    ensures
        r@ == putting(log@, data@, command@),
{
    Turn { log, next: Next::Do(Op::Put { data: Data::Slice(data), command }) }
}

pub fn put_owned<'a>(log: Log, data: Vec<u8>, command: String) -> (r: Turn<'a>)
    ensures
        r@ == putting(log@, data@, command@),
{
    Turn { log, next: Next::Do(Op::Put { data: Data::Owned(data), command }) }
}

pub fn put_text<'a>(log: Log, text: &str, command: String) -> (r: Turn<'a>)
    ensures
        r@ == putting(log@, utf8(text@), command@),
{
    put_owned(log, crate::text::bytes_of(text), command)
}

pub fn read<'a>(log: Log, path: String) -> (r: Turn<'a>)
    ensures
        r@ == reading(log@, path@),
{
    Turn { log, next: Next::Do(Op::Read { path }) }
}

pub fn finish<'a>(log: Log) -> (r: Turn<'a>)
    ensures
        r@ == done(log@),
{
    Turn { log, next: Next::Done }
}

} // verus!
