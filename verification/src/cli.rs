//! The command line: what each command says, and what it does next.
use crate::engine::flow::{Event, EventModel};
use crate::flasher::board::{
    boards, by_name, lookup, models, opt_model, opt_str, table, Board, BoardModel, Identity, IdentityModel,
};
use crate::flasher::image::{
    be32, bzimage, container, header_bytes, headroom, is_bzimage, size_word, word, BOOTLINUX_WINDOW,
};
use crate::flasher::cefdk::EMMC_HEADER_LEN;
use crate::flasher::method::{
    choose_method, chosen, order, passed_over, plan, plan_model, rejections, Method, PlanModel,
};
use crate::num::{dec, dec_string, hex2_string, hex_fixed, parse_number, parse_unsigned};
use crate::text::{
    cat2, cat3, cat4, cat5, cat6, cat7, cat8, from_chars, join, joined, lines, lines_of, opt, pad, padded, same, slices,
    starts_with, starts_with_str, strings, text_or_none, to_chars, trim, trim_str,
};
use crate::transport::discovery::Found;
use crate::transport::ipv4::{address, dotted, dotted_string, parse_address};
use crate::transport::netboot::{
    bootfile_for, default_bootfile, format_mac, kind_shown, loose_mac, parse_mac, show_kind, ACK,
};
use crate::flasher::board::pairs;
use crate::wizard::state::RelInfoModel;
use crate::wizard::state::RelInfo;
use vstd::prelude::*;
use vstd::string::*;

verus! {

// ---------------------------------------------------------------------------- saying

/// A line for the user.
#[derive(Debug)]
pub enum Say {
    Out(String),
    /// To standard error.
    Oops(String),
    /// A question; the answer is read from the same line.
    Ask(String),
}

pub ghost enum SayModel {
    Out(Seq<char>),
    Oops(Seq<char>),
    Ask(Seq<char>),
}

impl View for Say {
    type V = SayModel;

    open spec fn view(&self) -> SayModel {
        match self {
            Say::Out(s) => SayModel::Out(s@),
            Say::Oops(s) => SayModel::Oops(s@),
            Say::Ask(s) => SayModel::Ask(s@),
        }
    }
}

pub open spec fn says(v: Seq<Say>) -> Seq<SayModel> {
    v.map_values(|s: Say| s@)
}

/// What was said so far.
#[derive(Debug)]
pub struct Said {
    pub lines: Vec<Say>,
}

impl View for Said {
    type V = Seq<SayModel>;

    open spec fn view(&self) -> Seq<SayModel> {
        says(self.lines@)
    }
}

pub open spec fn silence() -> Seq<SayModel> {
    seq![]
}

impl Said {
    pub fn new() -> (r: Said)
        ensures
            r@ == silence(),
    {
        let r = Said { lines: Vec::new() };
        assert(says(r.lines@) =~= seq![]);
        r
    }

    pub fn say(&mut self, s: Say)
        ensures
            final(self)@ == old(self)@.push(s@),
    {
        let ghost was = says(self.lines@);
        let ghost m = s@;
        self.lines.push(s);
        assert(says(self.lines@) =~= was.push(m));
    }

    pub fn out(&mut self, s: &str)
        ensures
            final(self)@ == old(self)@.push(SayModel::Out(s@)),
    {
        self.say(Say::Out(String::from_str(s)));
    }

    pub fn err(&mut self, s: &str)
        ensures
            final(self)@ == old(self)@.push(SayModel::Oops(s@)),
    {
        self.say(Say::Oops(String::from_str(s)));
    }
}

/// Lines to standard output, each after a prefix.
pub open spec fn outs(v: Seq<Seq<char>>, prefix: Seq<char>) -> Seq<SayModel> {
    v.map_values(|s: Seq<char>| SayModel::Out(prefix + s))
}

fn say_all(said: &mut Said, v: &Vec<String>, prefix: &str)
    ensures
        final(said)@ == old(said)@ + outs(strings(v@), prefix@),
{
    let ghost start = said@;
    let ghost want = outs(strings(v@), prefix@);
    let mut i: usize = 0;
    assert(start + want.take(0) =~= start);
    while i < v.len()
        invariant
            i <= v@.len(),
            want == outs(strings(v@), prefix@),
            said@ == start + want.take(i as int),
        decreases v@.len() - i,
    {
        let s = cat2(prefix, v[i].as_str());
        assert(want[i as int] == SayModel::Out(s@));
        said.say(Say::Out(s));
        assert(want.take(i + 1) =~= want.take(i as int).push(want[i as int]));
        assert((start + want.take(i as int)).push(want[i as int]) =~= start + want.take(i + 1));
        i += 1;
    }
    assert(want.take(want.len() as int) =~= want);
}

/// One event of a flow on a terminal. A wait is loud on purpose: the user is looking
/// at the box, not at the terminal, and has to notice that it is their turn.
pub open spec fn shown(e: EventModel) -> Seq<SayModel> {
    match e {
        EventModel::Step(s) => silence().push(SayModel::Out("  "@ + s)),
        EventModel::Detail(s) => silence().push(SayModel::Out("    "@ + s)),
        EventModel::Warn(s) => silence().push(SayModel::Out("  ! "@ + s)),
        EventModel::Await { title, instruction } => (silence().push(
            SayModel::Out("\n  ==> ACTION NEEDED: "@ + title),
        ) + outs(lines(instruction), "      "@)).push(SayModel::Out(""@)),
        EventModel::Observed(s) => silence().push(SayModel::Out("    . "@ + s)),
        EventModel::Resolved(s) => silence().push(SayModel::Out("  OK "@ + s)),
    }
}

pub fn progress(e: &Event) -> (r: Said)
    ensures
        r@ == shown(e@),
{
    let mut said = Said::new();
    match e {
        Event::Step(s) => said.say(Say::Out(cat2("  ", s.as_str()))),
        Event::Detail(s) => said.say(Say::Out(cat2("    ", s.as_str()))),
        Event::Warn(s) => said.say(Say::Out(cat2("  ! ", s.as_str()))),
        Event::Await { title, instruction } => {
            said.say(Say::Out(cat2("\n  ==> ACTION NEEDED: ", title.as_str())));
            let ls = text_lines(instruction.as_str());
            say_all(&mut said, &ls, "      ");
            said.out("");
        },
        Event::Observed(s) => said.say(Say::Out(cat2("    . ", s.as_str()))),
        Event::Resolved(s) => said.say(Say::Out(cat2("  OK ", s.as_str()))),
    }
    said
}

fn text_lines(s: &str) -> (r: Vec<String>)
    ensures
        strings(r@) == lines(s@),
{
    let chars = to_chars(s);
    let ls = lines_of(chars.as_slice());
    let ghost all = slices(ls@);
    let mut out: Vec<String> = Vec::new();
    let mut i: usize = 0;
    assert(strings(out@) =~= all.take(0));
    while i < ls.len()
        invariant
            i <= ls@.len(),
            all == slices(ls@),
            strings(out@) == all.take(i as int),
        decreases ls@.len() - i,
    {
        let ghost before = out@;
        let line = from_chars(ls[i]);
        assert(line@ == all[i as int]);
        out.push(line);
        assert(strings(out@) =~= strings(before).push(line@));
        assert(all.take(i + 1) =~= all.take(i as int).push(all[i as int]));
        i += 1;
    }
    assert(all.take(all.len() as int) =~= all);
    out
}

pub open spec fn not_lines(v: Seq<(Method, Seq<char>)>) -> Seq<SayModel> {
    v.map_values(|r: (Method, Seq<char>)| SayModel::Out("  (not "@ + r.0.name_spec() + ": "@ + r.1 + ")"@))
}

fn say_rejected(said: &mut Said, v: &Vec<(Method, String)>)
    ensures
        final(said)@ == old(said)@ + not_lines(rejections(v@)),
{
    let ghost start = said@;
    let ghost want = not_lines(rejections(v@));
    let mut i: usize = 0;
    assert(start + want.take(0) =~= start);
    while i < v.len()
        invariant
            i <= v@.len(),
            want == not_lines(rejections(v@)),
            said@ == start + want.take(i as int),
        decreases v@.len() - i,
    {
        let s = cat5("  (not ", v[i].0.name(), ": ", v[i].1.as_str(), ")");
        assert(want[i as int] == SayModel::Out(s@));
        said.say(Say::Out(s));
        assert(want.take(i + 1) =~= want.take(i as int).push(want[i as int]));
        assert((start + want.take(i as int)).push(want[i as int]) =~= start + want.take(i + 1));
        i += 1;
    }
    assert(want.take(want.len() as int) =~= want);
}

// ------------------------------------------------------------------------- arguments

/// The argument after a flag.
pub open spec fn after_flag(v: Seq<Seq<char>>, flag: Seq<char>) -> Option<Seq<char>>
    decreases v.len(),
{
    if v.len() < 2 {
        None
    } else if v[0] == flag {
        Some(v[1])
    } else {
        after_flag(v.skip(1), flag)
    }
}

pub fn arg(rest: &Vec<String>, flag: &str) -> (r: Option<String>)
    ensures
        opt(r) == after_flag(strings(rest@), flag@),
{
    let ghost all = strings(rest@);
    let mut i: usize = 0;
    assert(all.skip(0) =~= all);
    while i < rest.len() && rest.len() - i >= 2
        invariant
            i <= rest@.len(),
            all == strings(rest@),
            after_flag(all, flag@) == after_flag(all.skip(i as int), flag@),
        decreases rest@.len() - i,
    {
        assert(all.skip(i as int)[0] == rest@[i as int]@);
        assert(all.skip(i as int)[1] == rest@[i + 1]@);
        if same(rest[i].as_str(), flag) {
            return Some(rest[i + 1].clone());
        }
        assert(all.skip(i as int).skip(1) =~= all.skip(i + 1));
        i += 1;
    }
    None
}

/// Is a flag there?
pub fn flag(rest: &Vec<String>, name: &str) -> (r: bool)
    ensures
        r == strings(rest@).contains(name@),
{
    crate::iod::api::holds(rest, name)
}

/// The arguments that are no flags.
pub open spec fn plain_args(v: Seq<Seq<char>>) -> Seq<Seq<char>>
    decreases v.len(),
{
    if v.len() == 0 {
        seq![]
    } else if starts_with(v.last(), "--"@) {
        plain_args(v.drop_last())
    } else {
        plain_args(v.drop_last()).push(v.last())
    }
}

pub fn positional(rest: &Vec<String>) -> (r: Vec<String>)
    ensures
        strings(r@) == plain_args(strings(rest@)),
{
    let ghost all = strings(rest@);
    let mut out: Vec<String> = Vec::new();
    let mut i: usize = 0;
    assert(strings(out@) =~= plain_args(all.take(0)));
    while i < rest.len()
        invariant
            i <= rest@.len(),
            all == strings(rest@),
            strings(out@) == plain_args(all.take(i as int)),
        decreases rest@.len() - i,
    {
        assert(all.take(i + 1).drop_last() =~= all.take(i as int));
        assert(all.take(i + 1).last() == rest@[i as int]@);
        let c = to_chars(rest[i].as_str());
        if !starts_with_str(c.as_slice(), "--") {
            let ghost was = strings(out@);
            let s = rest[i].clone();
            out.push(s);
            assert(strings(out@) =~= was.push(s@));
        }
        i += 1;
    }
    assert(all.take(all.len() as int) =~= all);
    out
}

pub open spec fn images_of(v: Seq<Seq<char>>) -> Seq<char> {
    match after_flag(v, "--images"@) {
        Some(p) => p,
        None => "output/images"@,
    }
}

/// Where the release is: given, or where a build leaves it.
pub fn images_arg(rest: &Vec<String>) -> (r: String)
    ensures
        r@ == images_of(strings(rest@)),
{
    match arg(rest, "--images") {
        Some(p) => p,
        None => String::from_str("output/images"),
    }
}

// ----------------------------------------------------------------------------- boards

pub open spec fn feature(v: Seq<Seq<char>>, on: bool, name: Seq<char>) -> Seq<Seq<char>> {
    if on {
        v.push(name)
    } else {
        v
    }
}

/// What a board has, or a dash.
pub open spec fn features(b: BoardModel) -> Seq<char> {
    let v = feature(seq![], b.has_switch, "switch"@);
    let v = feature(v, b.has_wifi, "wifi"@);
    let v = feature(v, b.secure_boot, "secure-boot"@);
    if v.len() == 0 {
        "-"@
    } else {
        joined(v, ","@)
    }
}

fn push_feature(v: &mut Vec<String>, on: bool, name: &str)
    ensures
        strings(final(v)@) == feature(strings(old(v)@), on, name@),
{
    if on {
        let ghost was = strings(v@);
        v.push(String::from_str(name));
        assert(strings(v@) =~= was.push(name@));
    }
}

fn features_of(b: &Board) -> (r: String)
    ensures
        r@ == features(b@),
{
    let mut v: Vec<String> = Vec::new();
    assert(strings(v@) =~= seq![]);
    push_feature(&mut v, b.has_switch, "switch");
    push_feature(&mut v, b.has_wifi, "wifi");
    push_feature(&mut v, b.secure_boot, "secure-boot");
    assert(strings(v@).len() == v@.len());
    if v.len() == 0 {
        String::from_str("-")
    } else {
        join(v.as_slice(), ",")
    }
}

pub open spec fn board_line(b: BoardModel) -> SayModel {
    SayModel::Out("  "@ + padded(b.name, 12) + " "@ + padded(b.desc, 40) + " "@ + features(b))
}

pub open spec fn board_lines(v: Seq<BoardModel>) -> Seq<SayModel> {
    v.map_values(|b: BoardModel| board_line(b))
}

/// Every known board.
pub fn list_boards() -> (r: Said)
    ensures
        r@ == board_lines(table()),
{
    let all = boards();
    let ghost want = board_lines(models(all@));
    let mut said = Said::new();
    let mut i: usize = 0;
    assert(want.take(0) =~= silence());
    while i < all.len()
        invariant
            i <= all@.len(),
            want == board_lines(models(all@)),
            said@ == want.take(i as int),
        decreases all@.len() - i,
    {
        let b = all[i];
        let s = cat6("  ", pad(b.name, 12).as_str(), " ", pad(b.desc, 40).as_str(), " ", features_of(b).as_str());
        assert(want[i as int] == SayModel::Out(s@));
        said.say(Say::Out(s));
        assert(want.take(i + 1) =~= want.take(i as int).push(want[i as int]));
        i += 1;
    }
    assert(want.take(want.len() as int) =~= want);
    said
}

// -------------------------------------------------------------------------- discovery

pub ghost struct SeenModel {
    pub ip: Seq<char>,
    pub mac: Option<Seq<char>>,
    pub via: Seq<Seq<char>>,
}

pub open spec fn seen(v: Seq<Found>) -> Seq<SeenModel> {
    v.map_values(|f: Found| SeenModel { ip: f.ip@, mac: opt(f.mac), via: strings(f.via@) })
}

pub open spec fn seen_line(f: SeenModel) -> SayModel {
    SayModel::Out(
        "  "@ + padded(f.ip, 16) + " "@ + padded(text_or_none(f.mac), 18) + " "@ + joined(f.via, ","@),
    )
}

pub open spec fn seen_lines(v: Seq<SeenModel>) -> Seq<SayModel> {
    v.map_values(|f: SeenModel| seen_line(f))
}

/// What a scan found.
pub fn discovered(found: &Vec<Found>) -> (r: (Said, bool))
    ensures
        r.0@ == (if found@.len() == 0 {
            silence().push(
                SayModel::Out(
                    "  nothing found. A freshly restored unit may not answer ICMP yet; try again or pass the IP directly."@,
                ),
            )
        } else {
            seen_lines(seen(found@))
        }),
        r.1 == (found@.len() > 0),
{
    let mut said = Said::new();
    if found.len() == 0 {
        said.out(
            "  nothing found. A freshly restored unit may not answer ICMP yet; try again or pass the IP directly.",
        );
        return (said, false);
    }
    let ghost want = seen_lines(seen(found@));
    let mut i: usize = 0;
    assert(want.take(0) =~= silence());
    while i < found.len()
        invariant
            i <= found@.len(),
            want == seen_lines(seen(found@)),
            said@ == want.take(i as int),
        decreases found@.len() - i,
    {
        let f = &found[i];
        let mac = match &f.mac {
            Some(m) => m.clone(),
            None => String::from_str(""),
        };
        let s = cat6(
            "  ",
            pad(f.ip.as_str(), 16).as_str(),
            " ",
            pad(mac.as_str(), 18).as_str(),
            " ",
            join(f.via.as_slice(), ",").as_str(),
        );
        assert(want[i as int] == SayModel::Out(s@));
        said.say(Say::Out(s));
        assert(want.take(i + 1) =~= want.take(i as int).push(want[i as int]));
        i += 1;
    }
    assert(want.take(want.len() as int) =~= want);
    (said, true)
}

pub open spec fn ip_lines(v: Seq<SeenModel>) -> Seq<SayModel> {
    v.map_values(|f: SeenModel| SayModel::Out("    "@ + f.ip))
}

/// The one unit on the network, when there is exactly one.
pub fn auto_host(found: &Vec<Found>) -> (r: (Said, Option<String>))
    ensures
        found@.len() == 0 ==> r.0@ == silence().push(
            SayModel::Out("  no units found; pass the IP explicitly"@),
        ) && r.1 is None,
        found@.len() == 1 ==> r.0@ == silence().push(SayModel::Out("  using "@ + found@[0].ip@)) && r.1 is Some
            && r.1->0@ == found@[0].ip@,
        found@.len() > 1 ==> r.0@ == silence().push(
            SayModel::Out("  multiple units found; pass one explicitly:"@),
        ) + ip_lines(seen(found@)) && r.1 is None,
{
    let mut said = Said::new();
    if found.len() == 0 {
        said.out("  no units found; pass the IP explicitly");
        return (said, None);
    }
    if found.len() == 1 {
        let s = cat2("  using ", found[0].ip.as_str());
        said.say(Say::Out(s));
        return (said, Some(found[0].ip.clone()));
    }
    said.out("  multiple units found; pass one explicitly:");
    let ghost start = said@;
    let ghost want = ip_lines(seen(found@));
    let mut i: usize = 0;
    assert(start + want.take(0) =~= start);
    while i < found.len()
        invariant
            i <= found@.len(),
            want == ip_lines(seen(found@)),
            said@ == start + want.take(i as int),
        decreases found@.len() - i,
    {
        let s = cat2("    ", found[i].ip.as_str());
        assert(want[i as int] == SayModel::Out(s@));
        said.say(Say::Out(s));
        assert(want.take(i + 1) =~= want.take(i as int).push(want[i as int]));
        assert((start + want.take(i as int)).push(want[i as int]) =~= start + want.take(i + 1));
        i += 1;
    }
    assert(want.take(want.len() as int) =~= want);
    (said, None)
}

/// Who to connect to, and the password to try first.
pub fn connect_args(rest: &Vec<String>) -> (r: (Option<String>, Vec<String>))
    ensures
        opt(r.0) == (if plain_args(strings(rest@)).len() > 0 {
            Some(plain_args(strings(rest@))[0])
        } else {
            None
        }),
        strings(r.1@) == (match after_flag(strings(rest@), "--password"@) {
            Some(p) => seq![p],
            None => seq![],
        }),
{
    let v = positional(rest);
    assert(strings(v@).len() == v@.len());
    let host = if v.len() > 0 {
        assert(strings(v@)[0] == v@[0]@);
        Some(v[0].clone())
    } else {
        None
    };
    let mut extra: Vec<String> = Vec::new();
    match arg(rest, "--password") {
        Some(p) => {
            let ghost m = p@;
            extra.push(p);
            assert(strings(extra@) =~= seq![m]);
        },
        None => {
            assert(strings(extra@) =~= seq![]);
        },
    }
    (host, extra)
}

/// Why there is no connection.
pub fn not_connected(host: &str, reachable: bool) -> (r: String)
    ensures
        r@ == (if reachable {
            "  "@ + host@
                + " is reachable but no password worked — SSH password login may be disabled or the root password is calculated; pass --password <pw> or use a key"@
        } else {
            "  cannot reach "@ + host@ + " over SSH"@
        }),
{
    if reachable {
        cat3(
            "  ",
            host,
            " is reachable but no password worked — SSH password login may be disabled or the root password is calculated; pass --password <pw> or use a key",
        )
    } else {
        cat3("  cannot reach ", host, " over SSH")
    }
}

pub open spec fn raw_lines(v: Seq<(Seq<char>, Seq<char>)>) -> Seq<SayModel> {
    v.map_values(|e: (Seq<char>, Seq<char>)| SayModel::Out("    "@ + e.0 + ": "@ + trim(e.1)))
}

/// What a unit is.
pub fn identified(host: &str, id: &Identity) -> (r: (Said, bool))
    ensures
        r.0@ == silence().push(SayModel::Out("  "@ + host@ + ": "@ + id@.describe())) + raw_lines(id@.raw),
        r.1 == id@.board is Some,
{
    let mut said = Said::new();
    let s = cat4("  ", host, ": ", id.describe().as_str());
    said.say(Say::Out(s));
    let ghost start = said@;
    let ghost want = raw_lines(id@.raw);
    let mut i: usize = 0;
    assert(start + want.take(0) =~= start);
    while i < id.raw.len()
        invariant
            i <= id.raw@.len(),
            want == raw_lines(pairs(id.raw@)),
            said@ == start + want.take(i as int),
        decreases id.raw@.len() - i,
    {
        let s = cat4("    ", id.raw[i].0.as_str(), ": ", trim_str(id.raw[i].1.as_str()).as_str());
        assert(want[i as int] == SayModel::Out(s@));
        said.say(Say::Out(s));
        assert(want.take(i + 1) =~= want.take(i as int).push(want[i as int]));
        assert((start + want.take(i as int)).push(want[i as int]) =~= start + want.take(i + 1));
        i += 1;
    }
    assert(want.take(want.len() as int) =~= want);
    (said, id.board.is_some())
}

// ------------------------------------------------------------------------------- plan

/// What a plan says: the steps, what is written, and the way back.
pub open spec fn plan_lines(p: PlanModel) -> Seq<SayModel> {
    outs(p.steps, "    - "@) + outs(p.writes, "    ! "@) + silence().push(
        SayModel::Out("  recovery: "@ + p.reversible),
    )
}

fn say_plan(said: &mut Said, b: &Board, m: Method)
    ensures
        final(said)@ == old(said)@ + plan_lines(plan_model(b@, m)),
{
    let ghost start = said@;
    let pl = plan(b, m);
    say_all(said, &pl.steps, "    - ");
    say_all(said, &pl.writes, "    ! ");
    let s = cat2("  recovery: ", pl.reversible.as_str());
    said.say(Say::Out(s));
    assert(said@ =~= start + plan_lines(plan_model(b@, m)));
}

pub open spec fn method_line(m: Method) -> SayModel {
    SayModel::Out("  method: "@ + m.name_spec() + " — "@ + m.summary_spec())
}

fn say_method(said: &mut Said, m: Method)
    ensures
        final(said)@ == old(said)@.push(method_line(m)),
{
    let s = cat4("  method: ", m.name(), " — ", m.summary());
    said.say(Say::Out(s));
}

/// A stock unit of a board.
pub open spec fn stock(b: BoardModel) -> IdentityModel {
    crate::wizard::state::as_board(b, crate::flasher::board::Running::Stock, seq![])
}

pub open spec fn planned(name: Option<Seq<char>>) -> (Seq<SayModel>, bool) {
    match name {
        None => (silence().push(SayModel::Oops("usage: ohc-flash plan <board>"@)), false),
        Some(n) => match lookup(n) {
            None => (silence().push(SayModel::Oops("unknown board '"@ + n + "'"@)), false),
            Some(b) => match chosen(order(), stock(b), None) {
                None => (silence().push(SayModel::Oops("no method for "@ + b.name)), false),
                Some(m) => (
                    silence().push(SayModel::Out("  board:  "@ + b.name + " ("@ + b.desc + ")"@)).push(
                        method_line(m),
                    ) + not_lines(passed_over(order(), stock(b), None)) + plan_lines(plan_model(b, m)),
                    true,
                ),
            },
        },
    }
}

/// What installing on a board would do.
pub fn show_plan(rest: &Vec<String>) -> (r: (Said, bool))
    ensures
        (r.0@, r.1) == planned(
            if rest@.len() > 0 {
                Some(rest@[0]@)
            } else {
                None
            },
        ),
{
    let mut said = Said::new();
    if rest.len() == 0 {
        said.err("usage: ohc-flash plan <board>");
        return (said, false);
    }
    let b = match by_name(rest[0].as_str()) {
        Some(b) => b,
        None => {
            let s = cat3("unknown board '", rest[0].as_str(), "'");
            said.say(Say::Oops(s));
            return (said, false);
        },
    };
    let id = crate::wizard::state::identity_for(b, crate::flasher::board::Running::Stock);
    let (m, rejected) = choose_method(&id, None);
    match m {
        None => {
            let s = cat2("no method for ", b.name);
            said.say(Say::Oops(s));
            (said, false)
        },
        Some(m) => {
            let s = cat5("  board:  ", b.name, " (", b.desc, ")");
            said.say(Say::Out(s));
            say_method(&mut said, m);
            say_rejected(&mut said, &rejected);
            say_plan(&mut said, b, m);
            (said, true)
        },
    }
}

// --------------------------------------------------------------------------- validate

pub open spec fn verdict(r: RelInfoModel) -> (Seq<SayModel>, bool) {
    if r.problems.len() == 0 {
        (
            silence().push(
                SayModel::Out(
                    "  ok: "@ + r.source + " — bzImage "@ + dec(r.kernel_len as nat) + " B ("@ + dec(
                        crate::wizard::steps::spare(r.kernel_len),
                    ) + " B headroom), rootfs present"@,
                ),
            ),
            true,
        )
    } else {
        (outs(r.problems, "  ! "@), false)
    }
}

/// Whether a release's images are good. Its particulars are those of a release
/// for the EA family, where a kernel over the window is a problem.
pub fn validated(info: &RelInfo) -> (r: (Said, bool))
    ensures
        (r.0@, r.1) == verdict(info@),
{
    let mut said = Said::new();
    assert(info@.problems.len() == info.problems@.len());
    if info.problems.len() == 0 {
        let left: u64 = if info.kernel_len < BOOTLINUX_WINDOW {
            headroom(info.kernel_len) as u64
        } else {
            0
        };
        let s = cat7(
            "  ok: ",
            info.source.as_str(),
            " — bzImage ",
            dec_string(info.kernel_len).as_str(),
            " B (",
            dec_string(left).as_str(),
            " B headroom), rootfs present",
        );
        said.say(Say::Out(s));
        (said, true)
    } else {
        say_all(&mut said, &info.problems, "  ! ");
        assert(said@ =~= outs(info@.problems, "  ! "@));
        (said, false)
    }
}

// ------------------------------------------------------------------------------- wrap

/// What to wrap, where to, and whose header to use.
#[derive(Debug)]
pub struct WrapArgs {
    pub src: String,
    pub dst: String,
    pub header: Option<String>,
}

/// The argument after the first place of a flag; nothing where the flag is not
/// there, and an error where it ends the line.
pub open spec fn header_arg(v: Seq<Seq<char>>) -> Result<Option<Seq<char>>, ()>
    decreases v.len(),
{
    if v.len() == 0 {
        Ok(None)
    } else if v[0] == "--header"@ {
        if v.len() > 1 {
            Ok(Some(v[1]))
        } else {
            Err(())
        }
    } else {
        header_arg(v.skip(1))
    }
}

fn find_header(rest: &Vec<String>) -> (r: Result<Option<String>, ()>)
    ensures
        match header_arg(strings(rest@)) {
            Ok(o) => r is Ok && opt(r->Ok_0) == o,
            Err(_) => r is Err,
        },
{
    let ghost all = strings(rest@);
    let mut i: usize = 0;
    assert(all.skip(0) =~= all);
    while i < rest.len()
        invariant
            i <= rest@.len(),
            all == strings(rest@),
            header_arg(all) == header_arg(all.skip(i as int)),
        decreases rest@.len() - i,
    {
        assert(all.skip(i as int)[0] == rest@[i as int]@);
        if same(rest[i].as_str(), "--header") {
            if rest.len() - i > 1 {
                assert(all.skip(i as int)[1] == rest@[i + 1]@);
                return Ok(Some(rest[i + 1].clone()));
            }
            return Err(());
        }
        assert(all.skip(i as int).skip(1) =~= all.skip(i + 1));
        i += 1;
    }
    Ok(None)
}

pub fn wrap_args(rest: &Vec<String>) -> (r: Result<WrapArgs, String>)
    ensures
        ({
            let p = plain_args(strings(rest@));
            if p.len() < 2 {
                r is Err && r->Err_0@ == "usage: ohc-flash wrap <bzImage> <out> [--header FILE]"@
            } else {
                match header_arg(strings(rest@)) {
                    Err(_) => r is Err && r->Err_0@ == "wrap: --header needs a path"@,
                    Ok(h) => r is Ok && r->Ok_0.src@ == p[0] && r->Ok_0.dst@ == p[1] && opt(r->Ok_0.header) == h,
                }
            }
        }),
{
    let v = positional(rest);
    assert(strings(v@).len() == v@.len());
    if v.len() < 2 {
        return Err(String::from_str("usage: ohc-flash wrap <bzImage> <out> [--header FILE]"));
    }
    assert(strings(v@)[0] == v@[0]@ && strings(v@)[1] == v@[1]@);
    match find_header(rest) {
        Err(_) => Err(String::from_str("wrap: --header needs a path")),
        Ok(header) => Ok(WrapArgs { src: v[0].clone(), dst: v[1].clone(), header }),
    }
}

/// The container of a kernel, or why there is none: not a kernel, or one that
/// would overwrite the loader.
pub open spec fn wrapped(src: Seq<char>, kernel: Seq<u8>, header: Option<Seq<u8>>) -> Result<Seq<u8>, Seq<char>> {
    if !bzimage(kernel) {
        Err("wrap: "@ + src + " is not a bzImage (no 0x55aa/HdrS magic)"@)
    } else if kernel.len() > BOOTLINUX_WINDOW {
        Err(
            "wrap: bzImage is "@ + dec(kernel.len()) + " B, "@ + dec((kernel.len() - BOOTLINUX_WINDOW) as nat)
                + " B over CEFDK's bootlinux window — it would overwrite the loader mid-copy and not boot"@,
        )
    } else {
        match header {
            Some(h) => if h.len() == EMMC_HEADER_LEN {
                Ok(h + kernel)
            } else {
                Err("wrap: header must be "@ + dec(EMMC_HEADER_LEN as nat) + " bytes"@)
            },
            None => Ok(header_bytes(word(kernel.len())) + kernel),
        }
    }
}

pub fn wrap(src: &str, kernel: &[u8], header: Option<&[u8]>) -> (r: Result<Vec<u8>, String>)
    ensures
        match wrapped(src@, kernel@, crate::flasher::image::opt_bytes(header)) {
            Ok(v) => r is Ok && r->Ok_0@ == v,
            Err(e) => r is Err && r->Err_0@ == e,
        },
{
    if !is_bzimage(kernel) {
        return Err(cat3("wrap: ", src, " is not a bzImage (no 0x55aa/HdrS magic)"));
    }
    let n: u64 = kernel.len() as u64;
    if n > BOOTLINUX_WINDOW {
        return Err(
            cat5(
                "wrap: bzImage is ",
                dec_string(n).as_str(),
                " B, ",
                dec_string(n - BOOTLINUX_WINDOW).as_str(),
                " B over CEFDK's bootlinux window — it would overwrite the loader mid-copy and not boot",
            ),
        );
    }
    match container(kernel, header) {
        Ok(v) => Ok(v),
        Err(e) => {
            let s = cat2("wrap: ", e.as_str());
            assert(s@ =~= "wrap: header must be "@ + dec(EMMC_HEADER_LEN as nat) + " bytes"@) by {
                reveal_strlit("wrap: ");
                reveal_strlit("header must be ");
                reveal_strlit("wrap: header must be ");
                assert("wrap: "@ + "header must be "@ =~= "wrap: header must be "@);
            }
            Err(s)
        },
    }
}

/// What was written: the sizes, and the word the installer writes to the device.
pub open spec fn wrapped_lines(dst: Seq<char>, kernel_len: nat, total: nat) -> Seq<SayModel> {
    let w = be32(word(total));
    silence().push(
        SayModel::Out(
            "wrap: bzImage "@ + dec(kernel_len) + " bytes, container "@ + dec(total) + " bytes ("@ + dec(
                (BOOTLINUX_WINDOW - kernel_len) as nat,
            ) + " B headroom)"@,
        ),
    ).push(
        SayModel::Out(
            "wrap: wrote "@ + dst + "  (eMMC size word for the flasher: 0x"@ + hex_fixed(w[0] as nat, 2)
                + hex_fixed(w[1] as nat, 2) + hex_fixed(w[2] as nat, 2) + hex_fixed(w[3] as nat, 2) + " BE)"@,
        ),
    )
}

pub fn wrap_done(dst: &str, kernel_len: usize, total: usize) -> (r: Said)
    requires
        kernel_len <= BOOTLINUX_WINDOW,
    ensures
        r@ == wrapped_lines(dst@, kernel_len as nat, total as nat),
{
    let sw = size_word(total);
    let mut said = Said::new();
    let a = cat7(
        "wrap: bzImage ",
        dec_string(kernel_len as u64).as_str(),
        " bytes, container ",
        dec_string(total as u64).as_str(),
        " bytes (",
        dec_string(BOOTLINUX_WINDOW - kernel_len as u64).as_str(),
        " B headroom)",
    );
    said.say(Say::Out(a));
    let b = cat8(
        "wrap: wrote ",
        dst,
        "  (eMMC size word for the flasher: 0x",
        hex2_string(sw[0]).as_str(),
        hex2_string(sw[1]).as_str(),
        hex2_string(sw[2]).as_str(),
        hex2_string(sw[3]).as_str(),
        " BE)",
    );
    said.say(Say::Out(b));
    said
}

// ---------------------------------------------------------------------------- install

/// The board to install for, and what is said of it. Without a definite board
/// nothing is installed, unless one is forced.
pub open spec fn target_of(id: IdentityModel, forced: Option<Seq<char>>) -> (Seq<SayModel>, Option<BoardModel>) {
    match forced {
        Some(n) => match lookup(n) {
            Some(b) => (
                silence().push(SayModel::Out("  target: "@ + b.name + " ("@ + b.desc + ") [forced]"@)),
                Some(b),
            ),
            None => (silence().push(SayModel::Oops("  unknown board '"@ + n + "'"@)), None),
        },
        None => {
            let p = silence().push(SayModel::Out("  target: "@ + id.describe()));
            if id.certain() {
                (p, id.board)
            } else {
                (
                    p.push(
                        SayModel::Oops(
                            "  refusing to install without a definite board — pass --board <name>"@,
                        ),
                    ),
                    None,
                )
            }
        },
    }
}

pub fn target(id: &Identity, forced: Option<&str>) -> (r: (Said, Option<&'static Board>))
    ensures
        (r.0@, opt_model(r.1)) == target_of(id@, opt_str(forced)),
{
    let mut said = Said::new();
    match forced {
        Some(n) => match by_name(n) {
            Some(b) => {
                let s = cat5("  target: ", b.name, " (", b.desc, ") [forced]");
                said.say(Say::Out(s));
                (said, Some(b))
            },
            None => {
                let s = cat3("  unknown board '", n, "'");
                said.say(Say::Oops(s));
                (said, None)
            },
        },
        None => {
            let s = cat2("  target: ", id.describe().as_str());
            said.say(Say::Out(s));
            if id.certain() {
                (said, id.board)
            } else {
                said.err("  refusing to install without a definite board — pass --board <name>");
                (said, None)
            }
        },
    }
}

/// The method, and what it will do; only the network method goes on.
pub open spec fn method_of(id: IdentityModel, b: BoardModel) -> (Seq<SayModel>, bool) {
    match chosen(order(), id, None) {
        None => (silence().push(SayModel::Oops("  no method applies"@)), false),
        Some(m) => {
            let p = (silence() + not_lines(passed_over(order(), id, None))).push(method_line(m)) + plan_lines(
                plan_model(b, m),
            );
            if m == Method::Network {
                (p, true)
            } else {
                (
                    p.push(SayModel::Oops("  only the network method is wired into the CLI so far"@)),
                    false,
                )
            }
        },
    }
}

pub fn install_method(id: &Identity, b: &'static Board) -> (r: (Said, bool))
    ensures
        (r.0@, r.1) == method_of(id@, b@),
{
    let mut said = Said::new();
    let (m, rejected) = choose_method(id, None);
    match m {
        None => {
            said.err("  no method applies");
            (said, false)
        },
        Some(m) => {
            say_rejected(&mut said, &rejected);
            say_method(&mut said, m);
            say_plan(&mut said, b, m);
            if m != Method::Network {
                said.err("  only the network method is wired into the CLI so far");
                return (said, false);
            }
            (said, true)
        },
    }
}

/// What the user asked for of an install.
#[derive(Debug, PartialEq, Eq, Clone, Copy, Structural)]
pub struct Wishes {
    pub dry_run: bool,
    pub yes: bool,
    pub self_install: bool,
    pub no_wait: bool,
}

pub open spec fn wishes_of(v: Seq<Seq<char>>) -> Wishes {
    Wishes {
        dry_run: v.contains("--dry-run"@),
        yes: v.contains("--yes"@),
        self_install: v.contains("--self-install"@),
        no_wait: v.contains("--no-wait"@),
    }
}

pub fn wishes(rest: &Vec<String>) -> (r: Wishes)
    ensures
        r == wishes_of(strings(rest@)),
{
    Wishes {
        dry_run: flag(rest, "--dry-run"),
        yes: flag(rest, "--yes"),
        self_install: flag(rest, "--self-install"),
        no_wait: flag(rest, "--no-wait"),
    }
}

#[derive(Debug, PartialEq, Eq, Clone, Copy, Structural)]
pub enum InstallAt {
    /// The release is open.
    Ready,
    Asked,
    SelfInstalling,
    StageOne,
    Waiting,
    StageTwo,
    Over,
}

/// What came back: a step's result, or the line the user typed.
#[derive(Debug)]
pub enum Heard {
    Nothing,
    Line(String),
    Done(Result<(), String>),
}

pub ghost enum HeardModel {
    Nothing,
    Line(Seq<char>),
    Done(Result<(), Seq<char>>),
}

impl View for Heard {
    type V = HeardModel;

    open spec fn view(&self) -> HeardModel {
        match self {
            Heard::Nothing => HeardModel::Nothing,
            Heard::Line(s) => HeardModel::Line(s@),
            Heard::Done(r) => HeardModel::Done(
                match r {
                    Ok(_) => Ok(()),
                    Err(e) => Err(e@),
                },
            ),
        }
    }
}

/// What is done next.
#[derive(Debug, PartialEq, Eq, Clone, Copy, Structural)]
pub enum Todo {
    ReadLine,
    SelfInstall,
    StageOne,
    Wait { secs: u64 },
    StageTwo,
    /// The command is over, and whether it succeeded.
    Exit(bool),
}

pub open spec fn agreed(line: Seq<char>) -> bool {
    trim(line) == "y"@ || trim(line) == "yes"@
}

pub open spec fn resume_line(host: Seq<char>, images: Seq<char>) -> Seq<char> {
    "    ohc-flash rootfs "@ + host + " --images "@ + images
}

/// The first writing step.
pub open spec fn first_write(w: Wishes) -> (InstallAt, Seq<SayModel>, Todo) {
    if w.self_install {
        (InstallAt::SelfInstalling, silence(), Todo::SelfInstall)
    } else {
        (InstallAt::StageOne, silence(), Todo::StageOne)
    }
}

pub open spec fn stage_two_end(h: HeardModel) -> (InstallAt, Seq<SayModel>, Todo) {
    match h {
        HeardModel::Done(Err(e)) => (
            InstallAt::Over,
            silence().push(SayModel::Oops("  stage 2 failed: "@ + e)),
            Todo::Exit(false),
        ),
        _ => (
            InstallAt::Over,
            silence().push(SayModel::Out("\n  done — the box is rebooting into openHC on p1."@)),
            Todo::Exit(true),
        ),
    }
}

/// One turn of an install, from an open release on.
pub open spec fn install_turn(
    at: InstallAt,
    w: Wishes,
    host: Seq<char>,
    images: Seq<char>,
    h: HeardModel,
) -> (InstallAt, Seq<SayModel>, Todo) {
    match at {
        InstallAt::Ready => if w.dry_run {
            (
                InstallAt::Over,
                silence().push(SayModel::Out("\n  (dry run — nothing written)"@)),
                Todo::Exit(true),
            )
        } else if !w.yes {
            (
                InstallAt::Asked,
                silence().push(SayModel::Ask("\n  proceed with stage 1 (RAM installer)? [y/N] "@)),
                Todo::ReadLine,
            )
        } else {
            first_write(w)
        },
        InstallAt::Asked => match h {
            HeardModel::Line(l) => if agreed(l) {
                first_write(w)
            } else {
                (InstallAt::Over, silence(), Todo::Exit(false))
            },
            _ => (InstallAt::Over, silence(), Todo::Exit(false)),
        },
        InstallAt::SelfInstalling => match h {
            HeardModel::Done(Err(e)) => (
                InstallAt::Over,
                silence().push(SayModel::Oops("  install failed: "@ + e)),
                Todo::Exit(false),
            ),
            _ => (
                InstallAt::Over,
                silence().push(
                    SayModel::Out(
                        "\n  done — the box is rebooting; first boot self-installs p1 and pivots."@,
                    ),
                ),
                Todo::Exit(true),
            ),
        },
        InstallAt::StageOne => match h {
            HeardModel::Done(Err(e)) => (
                InstallAt::Over,
                silence().push(SayModel::Oops("  stage 1 failed: "@ + e)),
                Todo::Exit(false),
            ),
            _ => {
                let p = silence().push(
                    SayModel::Out("\n  stage 1 done — the box is rebooting into the RAM installer."@),
                );
                if w.no_wait {
                    (
                        InstallAt::Over,
                        p.push(SayModel::Out("  when it is back (same IP), run:"@)).push(
                            SayModel::Out(resume_line(host, images)),
                        ),
                        Todo::Exit(true),
                    )
                } else {
                    (
                        InstallAt::Waiting,
                        p.push(SayModel::Out("  waiting up to 300s for the box to come back in RAM..."@)),
                        Todo::Wait { secs: 300 },
                    )
                }
            },
        },
        InstallAt::Waiting => match h {
            HeardModel::Done(Ok(_)) => (
                InstallAt::StageTwo,
                silence().push(SayModel::Out("  — up"@)),
                Todo::StageTwo,
            ),
            _ => (
                InstallAt::Over,
                silence().push(
                    SayModel::Oops("  the box did not come back within 300s. When it is up, run:"@),
                ).push(SayModel::Oops(resume_line(host, images))),
                Todo::Exit(false),
            ),
        },
        InstallAt::StageTwo => stage_two_end(h),
        InstallAt::Over => (InstallAt::Over, silence(), Todo::Exit(false)),
    }
}

fn is_yes(line: &str) -> (r: bool)
    ensures
        r == agreed(line@),
{
    let t = trim_str(line);
    same(t.as_str(), "y") || same(t.as_str(), "yes")
}

fn begin_write(w: &Wishes) -> (r: (InstallAt, Said, Todo))
    ensures
        (r.0, r.1@, r.2) == first_write(*w),
{
    if w.self_install {
        (InstallAt::SelfInstalling, Said::new(), Todo::SelfInstall)
    } else {
        (InstallAt::StageOne, Said::new(), Todo::StageOne)
    }
}

fn end_stage_two(h: &Heard) -> (r: (InstallAt, Said, Todo))
    ensures
        (r.0, r.1@, r.2) == stage_two_end(h@),
{
    let mut said = Said::new();
    match h {
        Heard::Done(Err(e)) => {
            let s = cat2("  stage 2 failed: ", e.as_str());
            said.say(Say::Oops(s));
            (InstallAt::Over, said, Todo::Exit(false))
        },
        _ => {
            said.out("\n  done — the box is rebooting into openHC on p1.");
            (InstallAt::Over, said, Todo::Exit(true))
        },
    }
}

fn resume(host: &str, images: &str) -> (r: String)
    ensures
        r@ == resume_line(host@, images@),
{
    cat4("    ohc-flash rootfs ", host, " --images ", images)
}

/// One turn of an install: what to say, and what to do next.
pub fn install(at: InstallAt, w: &Wishes, host: &str, images: &str, h: &Heard) -> (r: (InstallAt, Said, Todo))
    ensures
        (r.0, r.1@, r.2) == install_turn(at, *w, host@, images@, h@),
{
    let mut said = Said::new();
    match at {
        InstallAt::Ready => {
            if w.dry_run {
                said.out("\n  (dry run — nothing written)");
                return (InstallAt::Over, said, Todo::Exit(true));
            }
            if !w.yes {
                said.say(
                    Say::Ask(String::from_str("\n  proceed with stage 1 (RAM installer)? [y/N] ")),
                );
                return (InstallAt::Asked, said, Todo::ReadLine);
            }
            begin_write(w)
        },
        InstallAt::Asked => match h {
            Heard::Line(l) => {
                if is_yes(l.as_str()) {
                    begin_write(w)
                } else {
                    (InstallAt::Over, said, Todo::Exit(false))
                }
            },
            _ => (InstallAt::Over, said, Todo::Exit(false)),
        },
        InstallAt::SelfInstalling => match h {
            Heard::Done(Err(e)) => {
                let s = cat2("  install failed: ", e.as_str());
                said.say(Say::Oops(s));
                (InstallAt::Over, said, Todo::Exit(false))
            },
            _ => {
                said.out("\n  done — the box is rebooting; first boot self-installs p1 and pivots.");
                (InstallAt::Over, said, Todo::Exit(true))
            },
        },
        InstallAt::StageOne => match h {
            Heard::Done(Err(e)) => {
                let s = cat2("  stage 1 failed: ", e.as_str());
                said.say(Say::Oops(s));
                (InstallAt::Over, said, Todo::Exit(false))
            },
            _ => {
                said.out("\n  stage 1 done — the box is rebooting into the RAM installer.");
                if w.no_wait {
                    said.out("  when it is back (same IP), run:");
                    said.say(Say::Out(resume(host, images)));
                    (InstallAt::Over, said, Todo::Exit(true))
                } else {
                    said.out("  waiting up to 300s for the box to come back in RAM...");
                    (InstallAt::Waiting, said, Todo::Wait { secs: 300 })
                }
            },
        },
        InstallAt::Waiting => match h {
            Heard::Done(Ok(_)) => {
                said.out("  — up");
                (InstallAt::StageTwo, said, Todo::StageTwo)
            },
            _ => {
                said.err("  the box did not come back within 300s. When it is up, run:");
                said.say(Say::Oops(resume(host, images)));
                (InstallAt::Over, said, Todo::Exit(false))
            },
        },
        InstallAt::StageTwo => end_stage_two(h),
        InstallAt::Over => (InstallAt::Over, said, Todo::Exit(false)),
    }
}

/// Stage 2 alone, on a unit that already runs from RAM.
pub open spec fn rootfs_turn(at: InstallAt, yes: bool, host: Seq<char>, h: HeardModel) -> (
    InstallAt,
    Seq<SayModel>,
    Todo,
) {
    match at {
        InstallAt::Ready => {
            let p = silence().push(
                SayModel::Out("  "@ + host + ": writing openHC rootfs to p1 (stage 2)"@),
            );
            if yes {
                (InstallAt::StageTwo, p, Todo::StageTwo)
            } else {
                (
                    InstallAt::Asked,
                    p.push(
                        SayModel::Ask(
                            "  the box must be running from RAM (not p1). proceed? [y/N] "@,
                        ),
                    ),
                    Todo::ReadLine,
                )
            }
        },
        InstallAt::Asked => match h {
            HeardModel::Line(l) => if agreed(l) {
                (InstallAt::StageTwo, silence(), Todo::StageTwo)
            } else {
                (InstallAt::Over, silence(), Todo::Exit(false))
            },
            _ => (InstallAt::Over, silence(), Todo::Exit(false)),
        },
        InstallAt::StageTwo => stage_two_end(h),
        _ => (InstallAt::Over, silence(), Todo::Exit(false)),
    }
}

pub fn rootfs(at: InstallAt, yes: bool, host: &str, h: &Heard) -> (r: (InstallAt, Said, Todo))
    ensures
        (r.0, r.1@, r.2) == rootfs_turn(at, yes, host@, h@),
{
    let mut said = Said::new();
    match at {
        InstallAt::Ready => {
            let s = cat3("  ", host, ": writing openHC rootfs to p1 (stage 2)");
            said.say(Say::Out(s));
            if yes {
                return (InstallAt::StageTwo, said, Todo::StageTwo);
            }
            said.say(
                Say::Ask(
                    String::from_str("  the box must be running from RAM (not p1). proceed? [y/N] "),
                ),
            );
            (InstallAt::Asked, said, Todo::ReadLine)
        },
        InstallAt::Asked => match h {
            Heard::Line(l) => {
                if is_yes(l.as_str()) {
                    (InstallAt::StageTwo, said, Todo::StageTwo)
                } else {
                    (InstallAt::Over, said, Todo::Exit(false))
                }
            },
            _ => (InstallAt::Over, said, Todo::Exit(false)),
        },
        InstallAt::StageTwo => end_stage_two(h),
        _ => (InstallAt::Over, said, Todo::Exit(false)),
    }
}

/// Does a step write to the controller?
pub open spec fn writes(t: Todo) -> bool {
    t == Todo::SelfInstall || t == Todo::StageOne || t == Todo::StageTwo
}

/// A dry run writes nothing, and nothing is written without a yes.
pub proof fn law_nothing_is_written_unasked(
    at: InstallAt,
    w: Wishes,
    host: Seq<char>,
    images: Seq<char>,
    h: HeardModel,
)
    requires
        at == InstallAt::Ready || at == InstallAt::Asked,
        writes(install_turn(at, w, host, images, h).2),
    ensures
        at == InstallAt::Ready ==> w.yes && !w.dry_run,
        at == InstallAt::Asked ==> (h matches HeardModel::Line(l) && agreed(l)),
{
}

/// An uncertain identification installs nothing unless a board is forced.
pub proof fn law_no_guessing(id: IdentityModel)
    requires
        !id.certain(),
    ensures
        target_of(id, None).1 is None,
{
}

// ---------------------------------------------------------------------------- netboot

/// What a netboot needs.
#[derive(Debug)]
pub struct NetbootPlan {
    pub mac: [u8; 6],
    pub client_ip: [u8; 4],
    pub server_ip: [u8; 4],
    pub netmask: [u8; 4],
    pub image: String,
    pub bootfile: String,
    pub minutes: u64,
}

pub ghost struct NetbootModel {
    pub mac: Seq<u8>,
    pub client_ip: Seq<u8>,
    pub server_ip: Seq<u8>,
    pub netmask: Seq<u8>,
    pub image: Seq<char>,
    pub bootfile: Seq<char>,
    pub minutes: nat,
}

impl View for NetbootPlan {
    type V = NetbootModel;

    open spec fn view(&self) -> NetbootModel {
        NetbootModel {
            mac: self.mac@,
            client_ip: self.client_ip@,
            server_ip: self.server_ip@,
            netmask: self.netmask@,
            image: self.image@,
            bootfile: self.bootfile@,
            minutes: self.minutes as nat,
        }
    }
}

pub open spec fn complaint(s: Seq<char>) -> Seq<SayModel> {
    silence().push(SayModel::Oops(s))
}

pub open spec fn not_an_address(v: Seq<char>, what: Seq<char>) -> Seq<SayModel> {
    complaint("  '"@ + v + "' is not an IPv4 address ("@ + what + ")"@)
}

/// An address a flag gives, or a usual one.
pub open spec fn address_or(v: Seq<Seq<char>>, flag: Seq<char>, usual: Seq<u8>) -> Result<Seq<u8>, Seq<SayModel>> {
    match after_flag(v, flag) {
        Some(s) => match address(s) {
            Some(a) => Ok(a),
            None => Err(not_an_address(s, flag)),
        },
        None => Ok(usual),
    }
}

/// Which of this computer's addresses to serve from.
pub open spec fn server_of(v: Seq<Seq<char>>, client: Seq<u8>, facing: Option<Seq<u8>>) -> Result<Seq<u8>, Seq<SayModel>> {
    match after_flag(v, "--server-ip"@) {
        Some(_) => address_or(v, "--server-ip"@, seq![]),
        None => match facing {
            Some(a) => Ok(a),
            None => Err(
                complaint(
                    "  cannot work out which local address faces "@ + dotted(client) + "; pass --server-ip"@,
                ),
            ),
        },
    }
}

/// The arguments read, in the order a user should hear of what is wrong with
/// them. The image is looked for before anything is asked of the network.
pub open spec fn netboot_plan(v: Seq<Seq<char>>, image_there: bool, facing: Option<Seq<u8>>) -> Result<
    NetbootModel,
    Seq<SayModel>,
> {
    match after_flag(v, "--mac"@) {
        None => Err(
            complaint("usage: ohc-flash netboot --mac <MAC> --image <FILE> --client-ip <ADDR>"@).push(
                SayModel::Oops(
                    "  the MAC is required: this answers exactly one box and ignores every other."@,
                ),
            ),
        ),
        Some(mac_s) => match loose_mac(mac_s) {
            None => Err(complaint("  '"@ + mac_s + "' is not a MAC address"@)),
            Some(mac) => match after_flag(v, "--image"@) {
                None => Err(complaint("  --image <FILE> is required (the kernel to serve)"@)),
                Some(image) => if !image_there {
                    Err(complaint("  no image at "@ + image))
                } else {
                    match after_flag(v, "--client-ip"@) {
                        None => Err(
                            complaint(
                                "  --client-ip <ADDR> is required — offer it the address it already had"@,
                            ),
                        ),
                        Some(c) => match address(c) {
                            None => Err(not_an_address(c, "--client-ip"@)),
                            Some(client_ip) => match server_of(v, client_ip, facing) {
                                Err(e) => Err(e),
                                Ok(server_ip) => match address_or(
                                    v,
                                    "--netmask"@,
                                    seq![255u8, 255u8, 255u8, 0u8],
                                ) {
                                    Err(e) => Err(e),
                                    Ok(netmask) => Ok(
                                        NetbootModel {
                                            mac,
                                            client_ip,
                                            server_ip,
                                            netmask,
                                            image,
                                            bootfile: match after_flag(v, "--bootfile"@) {
                                                Some(b) => b,
                                                None => bootfile_for(
                                                    match after_flag(v, "--board"@) {
                                                        Some(b) => b,
                                                        None => "ioxv1"@,
                                                    },
                                                ),
                                            },
                                            minutes: match after_flag(v, "--minutes"@) {
                                                Some(m) => match parse_unsigned(m, 10, u64::MAX as nat) {
                                                    Some(n) => n,
                                                    None => 10,
                                                },
                                                None => 10,
                                            },
                                        },
                                    ),
                                },
                            },
                        },
                    }
                },
            },
        },
    }
}

fn complain(s: String) -> (r: Said)
    ensures
        r@ == complaint(s@),
{
    let mut said = Said::new();
    said.say(Say::Oops(s));
    said
}

fn bad_address(v: &str, what: &str) -> (r: Said)
    ensures
        r@ == not_an_address(v@, what@),
{
    complain(cat5("  '", v, "' is not an IPv4 address (", what, ")"))
}

fn read_address(rest: &Vec<String>, flag: &str, usual: [u8; 4]) -> (r: Result<[u8; 4], Said>)
    ensures
        match address_or(strings(rest@), flag@, usual@) {
            Ok(a) => r is Ok && r->Ok_0@ == a,
            Err(e) => r is Err && r->Err_0@ == e,
        },
{
    match arg(rest, flag) {
        Some(s) => {
            let c = to_chars(s.as_str());
            match parse_address(c.as_slice()) {
                Some(a) => Ok(a),
                None => Err(bad_address(s.as_str(), flag)),
            }
        },
        None => Ok(usual),
    }
}

pub open spec fn opt_addr(o: Option<[u8; 4]>) -> Option<Seq<u8>> {
    match o {
        Some(a) => Some(a@),
        None => None,
    }
}

fn read_server(rest: &Vec<String>, client: &[u8; 4], facing: Option<[u8; 4]>) -> (r: Result<[u8; 4], Said>)
    ensures
        match server_of(strings(rest@), client@, opt_addr(facing)) {
            Ok(a) => r is Ok && r->Ok_0@ == a,
            Err(e) => r is Err && r->Err_0@ == e,
        },
{
    match arg(rest, "--server-ip") {
        Some(_) => read_address(rest, "--server-ip", [0, 0, 0, 0]),
        None => match facing {
            Some(a) => Ok(a),
            None => Err(
                complain(
                    cat3(
                        "  cannot work out which local address faces ",
                        dotted_string(*client).as_str(),
                        "; pass --server-ip",
                    ),
                ),
            ),
        },
    }
}

/// Read the arguments of a netboot. `image_there` says whether the given image is
/// a file, `facing` which local address faces the given client.
pub fn netboot_args(rest: &Vec<String>, image_there: bool, facing: Option<[u8; 4]>) -> (r: Result<NetbootPlan, Said>)
    ensures
        match netboot_plan(strings(rest@), image_there, opt_addr(facing)) {
            Ok(p) => r is Ok && r->Ok_0@ == p,
            Err(e) => r is Err && r->Err_0@ == e,
        },
{
    let mac_s = match arg(rest, "--mac") {
        Some(m) => m,
        None => {
            let mut said = complain(
                String::from_str("usage: ohc-flash netboot --mac <MAC> --image <FILE> --client-ip <ADDR>"),
            );
            said.err("  the MAC is required: this answers exactly one box and ignores every other.");
            return Err(said);
        },
    };
    let mac = match parse_mac(mac_s.as_str()) {
        Some(m) => m,
        None => {
            return Err(complain(cat3("  '", mac_s.as_str(), "' is not a MAC address")));
        },
    };
    let image = match arg(rest, "--image") {
        Some(i) => i,
        None => {
            return Err(complain(String::from_str("  --image <FILE> is required (the kernel to serve)")));
        },
    };
    if !image_there {
        return Err(complain(cat2("  no image at ", image.as_str())));
    }
    let client_s = match arg(rest, "--client-ip") {
        Some(c) => c,
        None => {
            return Err(
                complain(
                    String::from_str(
                        "  --client-ip <ADDR> is required — offer it the address it already had",
                    ),
                ),
            );
        },
    };
    let cc = to_chars(client_s.as_str());
    let client_ip = match parse_address(cc.as_slice()) {
        Some(a) => a,
        None => {
            return Err(bad_address(client_s.as_str(), "--client-ip"));
        },
    };
    let server_ip = match read_server(rest, &client_ip, facing) {
        Ok(a) => a,
        Err(e) => {
            return Err(e);
        },
    };
    let usual: [u8; 4] = [255, 255, 255, 0];
    assert(usual@ =~= seq![255u8, 255u8, 255u8, 0u8]);
    let netmask = match read_address(rest, "--netmask", usual) {
        Ok(a) => a,
        Err(e) => {
            return Err(e);
        },
    };
    let bootfile = match arg(rest, "--bootfile") {
        Some(b) => b,
        None => {
            let board = match arg(rest, "--board") {
                Some(b) => b,
                None => String::from_str("ioxv1"),
            };
            default_bootfile(board.as_str())
        },
    };
    let minutes: u64 = match arg(rest, "--minutes") {
        Some(m) => {
            let c = to_chars(m.as_str());
            match parse_number(c.as_slice(), 10, u64::MAX) {
                Some(n) => n,
                None => 10,
            }
        },
        None => 10,
    };
    Ok(NetbootPlan { mac, client_ip, server_ip, netmask, image, bootfile, minutes })
}

/// What is said before listening.
pub fn netboot_banner(p: &NetbootPlan) -> (r: Said)
    ensures
        r@ == silence().push(
            SayModel::Out("  netboot: answering "@ + crate::transport::bootp::mac_text(p@.mac) + " and nothing else"@),
        ).push(
            SayModel::Out("    offering   "@ + dotted(p@.client_ip) + "  netmask "@ + dotted(p@.netmask)),
        ).push(
            SayModel::Out("    serverip   "@ + dotted(p@.server_ip) + "  bootfile "@ + p@.bootfile),
        ).push(SayModel::Out("    serving    "@ + p@.image)).push(
            SayModel::Out(
                "\n  POWER-CYCLE THE BOX NOW — listening for "@ + dec(p@.minutes) + " minutes.\n"@,
            ),
        ),
{
    let mut said = Said::new();
    let a = cat3("  netboot: answering ", format_mac(&p.mac).as_str(), " and nothing else");
    said.say(Say::Out(a));
    let b = cat4(
        "    offering   ",
        dotted_string(p.client_ip).as_str(),
        "  netmask ",
        dotted_string(p.netmask).as_str(),
    );
    said.say(Say::Out(b));
    let c = cat4(
        "    serverip   ",
        dotted_string(p.server_ip).as_str(),
        "  bootfile ",
        p.bootfile.as_str(),
    );
    said.say(Say::Out(c));
    let d = cat2("    serving    ", p.image.as_str());
    said.say(Say::Out(d));
    let e = cat3(
        "\n  POWER-CYCLE THE BOX NOW — listening for ",
        dec_string(p.minutes).as_str(),
        " minutes.\n",
    );
    said.say(Say::Out(e));
    said
}

/// How a netboot ended: a box that booted or took the lease is a success.
pub open spec fn netboot_end(served: Result<(), Seq<char>>, booted: bool, acked: bool, ignored: nat) -> (
    Seq<SayModel>,
    bool,
) {
    let p = if ignored > 0 {
        silence().push(
            SayModel::Out("\n  ignored "@ + dec(ignored) + " DHCP packets from other machines"@),
        )
    } else {
        silence()
    };
    match served {
        Err(e) => (p.push(SayModel::Oops("  "@ + e)), false),
        Ok(_) => if booted {
            (p, true)
        } else if acked {
            (
                p.push(
                    SayModel::Out(
                        "  the box took the lease. Watch the tftp lines above for the transfer;"@,
                    ),
                ).push(
                    SayModel::Out(
                        "  if none appeared, its bootcmd is not netbooting and it needs a console."@,
                    ),
                ),
                true,
            )
        } else {
            (
                p.push(
                    SayModel::Oops(
                        "  nothing was offered. Either the box was never power-cycled, or another"@,
                    ),
                ).push(
                    SayModel::Oops(
                        "  DHCP server answered first, or the MAC is wrong — check it and retry."@,
                    ),
                ),
                false,
            )
        },
    }
}

pub fn netboot_verdict(served: Result<(), String>, booted: bool, acked: bool, ignored: u64) -> (r: (Said, bool))
    ensures
        (r.0@, r.1) == netboot_end(
            match served {
                Ok(_) => Ok(()),
                Err(e) => Err(e@),
            },
            booted,
            acked,
            ignored as nat,
        ),
{
    let mut said = Said::new();
    if ignored > 0 {
        let s = cat3("\n  ignored ", dec_string(ignored).as_str(), " DHCP packets from other machines");
        said.say(Say::Out(s));
    }
    match served {
        Err(e) => {
            let s = cat2("  ", e.as_str());
            said.say(Say::Oops(s));
            (said, false)
        },
        Ok(_) => {
            if booted {
                (said, true)
            } else if acked {
                said.out("  the box took the lease. Watch the tftp lines above for the transfer;");
                said.out("  if none appeared, its bootcmd is not netbooting and it needs a console.");
                (said, true)
            } else {
                said.err("  nothing was offered. Either the box was never power-cycled, or another");
                said.err("  DHCP server answered first, or the MAC is wrong — check it and retry.");
                (said, false)
            }
        },
    }
}

/// What happens while one box is being served.
#[derive(Debug)]
pub enum BootNews {
    Listening,
    /// The box said something of the first kind and was sent the second.
    Answered { saw: u8, kind: u8 },
    /// The box said something that has no answer.
    Silent { saw: u8 },
    /// Another machine's message.
    Ignored,
    Failed(String),
}

/// The run so far: whether the box took the lease, and how many messages were not its.
#[derive(Debug, Clone, Copy, PartialEq, Eq, Structural)]
pub struct BootTally {
    pub acked: bool,
    pub ignored: u64,
}

pub open spec fn news_lines(e: BootNews) -> Seq<SayModel> {
    match e {
        BootNews::Listening => silence().push(SayModel::Out("  listening: dhcp/67 tftp/69"@)),
        BootNews::Answered { saw, kind } => silence().push(
            SayModel::Out("  dhcp  "@ + kind_shown(saw) + " -> "@ + kind_shown(kind)),
        ),
        BootNews::Silent { saw } => silence().push(
            SayModel::Out("  dhcp  "@ + kind_shown(saw) + " (nothing to say)"@),
        ),
        BootNews::Ignored => silence(),
        BootNews::Failed(what) => silence().push(SayModel::Oops("  !     "@ + what@)),
    }
}

/// The tally after one more piece of news; the count stays at its largest value.
pub open spec fn tallied(t: BootTally, e: BootNews) -> BootTally {
    BootTally {
        acked: t.acked || (e matches BootNews::Answered { kind, .. } && kind == ACK),
        ignored: if e is Ignored && t.ignored < u64::MAX {
            (t.ignored + 1) as u64
        } else {
            t.ignored
        },
    }
}

/// Take in one piece of news. Other machines' messages are counted, not printed: on a
/// live network they would bury the lines that matter.
pub fn boot_news(t: BootTally, e: &BootNews) -> (r: (Said, BootTally))
    ensures
        r.0@ == news_lines(*e),
        r.1 == tallied(t, *e),
{
    let mut said = Said::new();
    let mut next = t;
    match e {
        BootNews::Listening => said.out("  listening: dhcp/67 tftp/69"),
        BootNews::Answered { saw, kind } => {
            if *kind == ACK {
                next.acked = true;
            }
            let s = cat4("  dhcp  ", show_kind(*saw).as_str(), " -> ", show_kind(*kind).as_str());
            said.say(Say::Out(s));
        },
        BootNews::Silent { saw } => {
            let s = cat3("  dhcp  ", show_kind(*saw).as_str(), " (nothing to say)");
            said.say(Say::Out(s));
        },
        BootNews::Ignored => {
            if next.ignored < u64::MAX {
                next.ignored = next.ignored + 1;
            }
        },
        BootNews::Failed(what) => said.say(Say::Oops(cat2("  !     ", what.as_str()))),
    }
    (said, next)
}

} // verus!
