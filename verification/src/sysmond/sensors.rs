//! Reading the sensors: temperatures, fans, processor, memory.
//!
//! All of it comes from files the kernel already publishes, so there is nothing
//! to own here: what the files hold goes in, readings come out.
use crate::num::{dec, dec_string, parse_int, parse_number, parse_signed, parse_unsigned};
use crate::sysmond::history::{readings_of, Series, SeriesModel};
use crate::text::{
    cat2, cat3, from_chars, lines, lines_of, lower_char, opt, same, slices, starts_with, starts_with_str, to_chars,
    to_lower_char, trim, trim_both, trim_of, trimmed, words, words_of, Class,
};
use crate::textmap::{before, text_lt};
use vstd::prelude::*;
use vstd::slice::slice_subrange;
use vstd::string::*;

verus! {

#[derive(Debug)]
pub struct Reading {
    /// The sensor's label in lower case, with the chip's name before it when two
    /// sensors use one label.
    pub slug: String,
    pub label: String,
    pub chip: String,
    /// Celsius for temperatures, turns a minute for fans, 0 to 255 for pwm.
    pub value: i64,
}

pub ghost struct ReadingModel {
    pub slug: Seq<char>,
    pub label: Seq<char>,
    pub chip: Seq<char>,
    pub value: int,
}

impl View for Reading {
    type V = ReadingModel;

    open spec fn view(&self) -> ReadingModel {
        ReadingModel { slug: self.slug@, label: self.label@, chip: self.chip@, value: self.value as int }
    }
}

pub open spec fn readings_view(v: Seq<Reading>) -> Seq<ReadingModel> {
    v.map_values(|r: Reading| r@)
}

#[derive(Debug)]
pub struct Sensors {
    pub temps: Vec<Reading>,
    pub fans: Vec<Reading>,
    pub pwm: Vec<Reading>,
}

pub ghost struct SensorsModel {
    pub temps: Seq<ReadingModel>,
    pub fans: Seq<ReadingModel>,
    pub pwm: Seq<ReadingModel>,
}

impl View for Sensors {
    type V = SensorsModel;

    open spec fn view(&self) -> SensorsModel {
        SensorsModel {
            temps: readings_view(self.temps@),
            fans: readings_view(self.fans@),
            pwm: readings_view(self.pwm@),
        }
    }
}

/// What one numbered channel of a chip's directory holds.
#[derive(Debug)]
pub struct Channel {
    pub temp: Option<String>,
    pub temp_label: Option<String>,
    pub fan: Option<String>,
    pub fan_label: Option<String>,
    pub pwm: Option<String>,
}

pub ghost struct ChannelModel {
    pub temp: Option<Seq<char>>,
    pub temp_label: Option<Seq<char>>,
    pub fan: Option<Seq<char>>,
    pub fan_label: Option<Seq<char>>,
    pub pwm: Option<Seq<char>>,
}

impl View for Channel {
    type V = ChannelModel;

    open spec fn view(&self) -> ChannelModel {
        ChannelModel {
            temp: opt(self.temp),
            temp_label: opt(self.temp_label),
            fan: opt(self.fan),
            fan_label: opt(self.fan_label),
            pwm: opt(self.pwm),
        }
    }
}

/// A chip as its directory shows it: the directory, what its `name` file holds,
/// and its channels, the first of them number one.
#[derive(Debug)]
pub struct Chip {
    pub path: String,
    pub name: String,
    pub channels: Vec<Channel>,
}

pub ghost struct ChipModel {
    pub path: Seq<char>,
    pub name: Seq<char>,
    pub channels: Seq<ChannelModel>,
}

impl View for Chip {
    type V = ChipModel;

    open spec fn view(&self) -> ChipModel {
        ChipModel {
            path: self.path@,
            name: self.name@,
            channels: self.channels@.map_values(|c: Channel| c@),
        }
    }
}

pub open spec fn chips_view(v: Seq<Chip>) -> Seq<ChipModel> {
    v.map_values(|c: Chip| c@)
}

/// How many channels of a chip are looked at.
pub const CHANNELS: usize = 8;

// ------------------------------------------------------------------------- slugs

pub open spec fn ascii_alnum(c: char) -> bool {
    '0' <= c <= '9' || 'a' <= c <= 'z' || 'A' <= c <= 'Z'
}

/// A label as a topic level: ASCII letters and digits in lower case, everything
/// else a dash, and no dash at either end.
pub open spec fn slug_of(s: Seq<char>) -> Seq<char> {
    trim_both(
        s.map_values(
            |c: char|
                if ascii_alnum(c) {
                    lower_char(c)
                } else {
                    '-'
                },
        ),
        Class::One('-'),
    )
}

pub fn slugify(s: &str) -> (r: String)
    ensures
        r@ == slug_of(s@),
{
    let v = to_chars(s);
    let ghost want = s@.map_values(
        |c: char|
            if ascii_alnum(c) {
                lower_char(c)
            } else {
                '-'
            },
    );
    let mut out: Vec<char> = Vec::new();
    let mut i: usize = 0;
    assert(out@ =~= want.take(0));
    while i < v.len()
        invariant
            i <= v@.len(),
            v@ == s@,
            want == s@.map_values(
                |c: char|
                    if ascii_alnum(c) {
                        lower_char(c)
                    } else {
                        '-'
                    },
            ),
            out@ == want.take(i as int),
        decreases v@.len() - i,
    {
        let c: char = v[i];
        let d: char = if ('0' <= c && c <= '9') || ('a' <= c && c <= 'z') || ('A' <= c && c <= 'Z') {
            to_lower_char(c)
        } else {
            '-'
        };
        assert(want[i as int] == d);
        out.push(d);
        assert(out@ =~= want.take(i + 1));
        i += 1;
    }
    assert(want.take(i as int) =~= want);
    from_chars(trim_of(out.as_slice(), &Class::One('-')))
}

// --------------------------------------------------------------- chips, in order

/// A chip comes before another by name, then by directory.
pub open spec fn chip_lt(a: ChipModel, b: ChipModel) -> bool {
    text_lt(trim(a.name), trim(b.name)) || (trim(a.name) == trim(b.name) && text_lt(a.path, b.path))
}

/// A place in its order, after those that do not come later.
pub open spec fn placed(all: Seq<ChipModel>, order: Seq<int>, n: int) -> Seq<int>
    decreases order.len(),
{
    if order.len() == 0 {
        seq![n]
    } else if chip_lt(all[n], all[order.last()]) {
        placed(all, order.drop_last(), n).push(order.last())
    } else {
        order.push(n)
    }
}

/// The places of the first `n` chips, in the chips' order.
pub open spec fn chip_order(all: Seq<ChipModel>, n: nat) -> Seq<int>
    decreases n,
{
    if n == 0 {
        seq![]
    } else {
        placed(all, chip_order(all, (n - 1) as nat), n - 1)
    }
}

/// The chips by name, then by directory.
pub open spec fn sorted_chips(all: Seq<ChipModel>) -> Seq<ChipModel> {
    chip_order(all, all.len()).map_values(|i: int| all[i])
}

fn chip_before(a: &Chip, b: &Chip) -> (r: bool)
    ensures
        r == chip_lt(a@, b@),
{
    let x = crate::text::trim_str(a.name.as_str());
    let y = crate::text::trim_str(b.name.as_str());
    before(x.as_str(), y.as_str()) || (same(x.as_str(), y.as_str()) && before(a.path.as_str(), b.path.as_str()))
}

pub open spec fn ints(v: Seq<usize>) -> Seq<int> {
    v.map_values(|i: usize| i as int)
}

/// Every place in an order is the place of a chip.
pub open spec fn within(order: Seq<int>, n: int) -> bool {
    forall|i: int| 0 <= i < order.len() ==> 0 <= #[trigger] order[i] < n
}

proof fn lemma_placed(all: Seq<ChipModel>, order: Seq<int>, p: int, n: int)
    requires
        0 <= p <= order.len(),
        forall|i: int| p <= i < order.len() ==> chip_lt(all[n], all[#[trigger] order[i]]),
        p == 0 || !chip_lt(all[n], all[order[p - 1]]),
    ensures
        placed(all, order, n) == order.insert(p, n),
    decreases order.len(),
{
    if order.len() == 0 {
        assert(placed(all, order, n) =~= order.insert(p, n));
    } else if p == order.len() {
        assert(order[p - 1] == order.last());
        assert(placed(all, order, n) =~= order.insert(p, n));
    } else {
        assert(chip_lt(all[n], all[order[order.len() - 1]]));
        let o = order.drop_last();
        assert forall|i: int| p <= i < o.len() implies chip_lt(all[n], all[#[trigger] o[i]]) by {
            assert(o[i] == order[i]);
        }
        if p > 0 {
            assert(o[p - 1] == order[p - 1]);
        }
        lemma_placed(all, o, p, n);
        assert(placed(all, order, n) =~= order.insert(p, n));
    }
}

fn ordered(chips: &Vec<Chip>) -> (r: Vec<usize>)
    ensures
        ints(r@) == chip_order(chips_view(chips@), chips@.len()),
        within(ints(r@), chips@.len() as int),
{
    let ghost all = chips_view(chips@);
    let mut out: Vec<usize> = Vec::new();
    let mut n: usize = 0;
    assert(ints(out@) =~= chip_order(all, 0));
    while n < chips.len()
        invariant
            n <= chips@.len(),
            all == chips_view(chips@),
            ints(out@) == chip_order(all, n as nat),
            within(ints(out@), n as int),
        decreases chips@.len() - n,
    {
        let ghost was = ints(out@);
        let mut p: usize = out.len();
        assert(all[n as int] == chips@[n as int]@);
        while p > 0
            invariant
                p <= out@.len(),
                n < chips@.len(),
                all == chips_view(chips@),
                all[n as int] == chips@[n as int]@,
                was == ints(out@),
                within(was, n as int),
                forall|i: int| p <= i < was.len() ==> chip_lt(all[n as int], all[#[trigger] was[i]]),
            ensures
                p <= out@.len(),
                forall|i: int| p <= i < was.len() ==> chip_lt(all[n as int], all[#[trigger] was[i]]),
                p == 0 || !chip_lt(all[n as int], all[was[p - 1]]),
            decreases p,
        {
            assert(was[p - 1] == out@[p - 1] as int);
            assert(all[was[p - 1]] == chips@[was[p - 1]]@);
            if !chip_before(&chips[n], &chips[out[p - 1]]) {
                break;
            }
            p -= 1;
        }
        proof {
            lemma_placed(all, was, p as int, n as int);
        }
        out.insert(p, n);
        assert(ints(out@) =~= was.insert(p as int, n as int));
        assert forall|i: int| 0 <= i < ints(out@).len() implies 0 <= #[trigger] ints(out@)[i] < n + 1 by {
            if i < p {
                assert(ints(out@)[i] == was[i]);
            } else if i > p {
                assert(ints(out@)[i] == was[i - 1]);
            }
        }
        n += 1;
    }
    out
}

// ---------------------------------------------------------------------- readings

#[derive(Debug, Clone, Copy, PartialEq, Eq, Structural)]
pub enum Kind {
    Temp,
    Fan,
    Pwm,
}

impl Kind {
    pub open spec fn word(self) -> Seq<char> {
        match self {
            Kind::Temp => "temp"@,
            Kind::Fan => "fan"@,
            Kind::Pwm => "pwm"@,
        }
    }

    pub fn name(&self) -> (r: &'static str)
        ensures
            r@ == self.word(),
    {
        match self {
            Kind::Temp => "temp",
            Kind::Fan => "fan",
            Kind::Pwm => "pwm",
        }
    }
}

/// A number divided by a thousand, towards zero: the kernel gives temperatures
/// in thousandths of a degree.
pub open spec fn whole_degrees(v: int) -> int {
    if v >= 0 {
        v / 1000
    } else {
        -((-v) / 1000)
    }
}

fn degrees(v: i64) -> (r: i64)
    ensures
        r == whole_degrees(v as int),
{
    if v >= 0 {
        v / 1000
    } else {
        let m: u64 = (-(v + 1)) as u64 + 1;
        assert(m == -v);
        let q: u64 = m / 1000;
        -(q as i64)
    }
}

/// What a value file says.
pub open spec fn file_number(f: Option<Seq<char>>) -> Option<int> {
    match f {
        Some(t) => parse_signed(trim(t)),
        None => None,
    }
}

/// What a label file says, or the channel's own name.
pub open spec fn label_or(f: Option<Seq<char>>, name: Seq<char>) -> Seq<char> {
    match f {
        Some(t) => trim(t),
        None => name,
    }
}

/// The reading of one kind on a chip's channel, which has a number.
pub open spec fn reading_on(chip: Seq<char>, c: ChannelModel, number: nat, kind: Kind) -> Option<ReadingModel> {
    let name = kind.word() + dec(number);
    match kind {
        Kind::Temp => match file_number(c.temp) {
            Some(v) => {
                let label = label_or(c.temp_label, name);
                Some(ReadingModel { slug: slug_of(label), label, chip, value: whole_degrees(v) })
            },
            None => None,
        },
        Kind::Fan => match file_number(c.fan) {
            Some(v) => {
                let label = label_or(c.fan_label, name);
                Some(ReadingModel { slug: slug_of(label), label, chip, value: v })
            },
            None => None,
        },
        Kind::Pwm => match file_number(c.pwm) {
            Some(v) => Some(ReadingModel { slug: name, label: name, chip, value: v }),
            None => None,
        },
    }
}

/// The readings of one kind on a chip's first `n` channels.
pub open spec fn readings_on(c: ChipModel, kind: Kind, n: nat) -> Seq<ReadingModel>
    decreases n,
{
    if n == 0 {
        seq![]
    } else {
        let rest = readings_on(c, kind, (n - 1) as nat);
        match reading_on(trim(c.name), c.channels[n - 1], n, kind) {
            Some(r) => rest.push(r),
            None => rest,
        }
    }
}

/// How many of a chip's channels count.
pub open spec fn channels_used(c: ChipModel) -> nat {
    if c.channels.len() < CHANNELS as nat {
        c.channels.len()
    } else {
        CHANNELS as nat
    }
}

/// The readings of one kind on a list of chips.
pub open spec fn readings_over(v: Seq<ChipModel>, kind: Kind) -> Seq<ReadingModel>
    decreases v.len(),
{
    if v.len() == 0 {
        seq![]
    } else {
        readings_over(v.drop_last(), kind) + readings_on(v.last(), kind, channels_used(v.last()))
    }
}

fn number_in(f: &Option<String>) -> (r: Option<i64>)
    ensures
        match r {
            Some(v) => file_number(opt(*f)) == Some(v as int),
            None => file_number(opt(*f)) is None,
        },
{
    match f {
        Some(t) => {
            let chars = to_chars(t.as_str());
            parse_int(trimmed(chars.as_slice()))
        },
        None => None,
    }
}

fn label_in(f: &Option<String>, name: &str) -> (r: String)
    ensures
        r@ == label_or(opt(*f), name@),
{
    match f {
        Some(t) => crate::text::trim_str(t.as_str()),
        None => String::from_str(name),
    }
}

fn read_channel(chip: &str, c: &Channel, number: u64, kind: Kind) -> (r: Option<Reading>)
    ensures
        match r {
            Some(x) => reading_on(chip@, c@, number as nat, kind) == Some(x@),
            None => reading_on(chip@, c@, number as nat, kind) is None,
        },
{
    let digits = dec_string(number);
    let name = cat2(kind.name(), digits.as_str());
    match kind {
        Kind::Temp => match number_in(&c.temp) {
            Some(v) => {
                let label = label_in(&c.temp_label, name.as_str());
                Some(
                    Reading {
                        slug: slugify(label.as_str()),
                        label,
                        chip: String::from_str(chip),
                        value: degrees(v),
                    },
                )
            },
            None => None,
        },
        Kind::Fan => match number_in(&c.fan) {
            Some(v) => {
                let label = label_in(&c.fan_label, name.as_str());
                Some(Reading { slug: slugify(label.as_str()), label, chip: String::from_str(chip), value: v })
            },
            None => None,
        },
        Kind::Pwm => match number_in(&c.pwm) {
            Some(v) => Some(
                Reading {
                    slug: String::from_str(name.as_str()),
                    label: name,
                    chip: String::from_str(chip),
                    value: v,
                },
            ),
            None => None,
        },
    }
}

fn read_chip(c: &Chip, kind: Kind, out: &mut Vec<Reading>)
    ensures
        readings_view(final(out)@) == readings_view(old(out)@) + readings_on(c@, kind, channels_used(c@)),
{
    let ghost start = readings_view(out@);
    let name = crate::text::trim_str(c.name.as_str());
    let mut i: usize = 0;
    assert(start + readings_on(c@, kind, 0) =~= start);
    while i < c.channels.len() && i < CHANNELS
        invariant
            i <= channels_used(c@),
            name@ == trim(c@.name),
            readings_view(out@) == start + readings_on(c@, kind, i as nat),
        decreases c.channels@.len() - i,
    {
        assert(c@.channels[i as int] == c.channels@[i as int]@);
        let ghost was = out@;
        let ghost had = readings_on(c@, kind, i as nat);
        if let Some(r) = read_channel(name.as_str(), &c.channels[i], i as u64 + 1, kind) {
            out.push(r);
            assert(readings_view(out@) =~= readings_view(was).push(r@));
            assert((start + had).push(r@) =~= start + had.push(r@));
        }
        i += 1;
    }
}

fn read_all(chips: &Vec<Chip>, order: &Vec<usize>, kind: Kind) -> (r: Vec<Reading>)
    requires
        within(ints(order@), chips@.len() as int),
    ensures
        readings_view(r@) == readings_over(
            ints(order@).map_values(|i: int| chips_view(chips@)[i]),
            kind,
        ),
{
    let ghost v = ints(order@).map_values(|i: int| chips_view(chips@)[i]);
    let mut out: Vec<Reading> = Vec::new();
    let mut i: usize = 0;
    assert(readings_view(out@) =~= readings_over(v.take(0), kind));
    while i < order.len()
        invariant
            i <= order@.len(),
            within(ints(order@), chips@.len() as int),
            v == ints(order@).map_values(|i: int| chips_view(chips@)[i]),
            readings_view(out@) == readings_over(v.take(i as int), kind),
        decreases order@.len() - i,
    {
        assert(ints(order@)[i as int] == order@[i as int]);
        assert(v[i as int] == chips@[order@[i as int] as int]@);
        assert(v.take(i + 1).drop_last() =~= v.take(i as int));
        read_chip(&chips[order[i]], kind, &mut out);
        i += 1;
    }
    assert(v.take(i as int) =~= v);
    out
}

// ------------------------------------------------------------------- one slug each

/// How many readings carry a slug.
pub open spec fn uses(v: Seq<ReadingModel>, slug: Seq<char>) -> nat
    decreases v.len(),
{
    if v.len() == 0 {
        0
    } else {
        uses(v.drop_last(), slug) + if v.last().slug == slug {
            1nat
        } else {
            0nat
        }
    }
}

/// A reading of a list, its slug told apart by the chip when others use it.
pub open spec fn told_apart(v: Seq<ReadingModel>, r: ReadingModel) -> ReadingModel {
    if uses(v, r.slug) > 1 {
        ReadingModel { slug: slug_of(r.chip) + "-"@ + r.slug, ..r }
    } else {
        r
    }
}

/// Only what collides is qualified.
pub open spec fn qualified(v: Seq<ReadingModel>) -> Seq<ReadingModel> {
    v.map_values(|r: ReadingModel| told_apart(v, r))
}

proof fn lemma_uses(v: Seq<ReadingModel>, slug: Seq<char>)
    ensures
        uses(v, slug) <= v.len(),
        forall|i: int| 0 <= i < v.len() && (#[trigger] v[i]).slug == slug ==> uses(v, slug) >= 1,
        forall|i: int, j: int|
            0 <= i < j < v.len() && (#[trigger] v[i]).slug == slug && (#[trigger] v[j]).slug == slug ==> uses(
                v,
                slug,
            ) >= 2,
    decreases v.len(),
{
    if v.len() > 0 {
        let w = v.drop_last();
        lemma_uses(w, slug);
        assert forall|i: int| 0 <= i < v.len() && (#[trigger] v[i]).slug == slug implies uses(v, slug) >= 1 by {
            if i < w.len() {
                assert(w[i] == v[i]);
            }
        }
        assert forall|i: int, j: int|
            0 <= i < j < v.len() && (#[trigger] v[i]).slug == slug && (#[trigger] v[j]).slug == slug implies uses(
            v,
            slug,
        ) >= 2 by {
            assert(w[i] == v[i]);
            if j < w.len() {
                assert(w[j] == v[j]);
            }
        }
    }
}

/// Two readings that shared a slug both carry their chip in it afterwards, so
/// they differ unless the same chip gave both.
pub proof fn law_collisions_are_told_apart(v: Seq<ReadingModel>, i: int, j: int)
    requires
        0 <= i < j < v.len(),
        v[i].slug == v[j].slug,
    ensures
        qualified(v)[i].slug == slug_of(v[i].chip) + "-"@ + v[i].slug,
        qualified(v)[j].slug == slug_of(v[j].chip) + "-"@ + v[j].slug,
        slug_of(v[i].chip) != slug_of(v[j].chip) ==> qualified(v)[i].slug != qualified(v)[j].slug,
{
    lemma_uses(v, v[i].slug);
    let a = slug_of(v[i].chip);
    let b = slug_of(v[j].chip);
    let t = "-"@ + v[i].slug;
    if a != b {
        assert(a + "-"@ + v[i].slug =~= a + t);
        assert(b + "-"@ + v[i].slug =~= b + t);
        if a + t == b + t {
            assert(a.len() == b.len());
            assert(a =~= (a + t).take(a.len() as int));
            assert(b =~= (b + t).take(b.len() as int));
        }
    }
}

fn count_uses(v: &Vec<Reading>, slug: &str) -> (r: usize)
    ensures
        r == uses(readings_view(v@), slug@),
{
    let ghost all = readings_view(v@);
    let mut n: usize = 0;
    let mut i: usize = 0;
    assert(uses(all.take(0), slug@) == 0);
    while i < v.len()
        invariant
            i <= v@.len(),
            n <= i,
            all == readings_view(v@),
            n == uses(all.take(i as int), slug@),
        decreases v@.len() - i,
    {
        assert(all.take(i + 1).drop_last() =~= all.take(i as int));
        assert(all.take(i + 1).last() == v@[i as int]@);
        if same(v[i].slug.as_str(), slug) {
            n += 1;
        }
        i += 1;
    }
    assert(all.take(i as int) =~= all);
    n
}

fn qualify(v: Vec<Reading>) -> (r: Vec<Reading>)
    ensures
        readings_view(r@) == qualified(readings_view(v@)),
{
    let ghost all = readings_view(v@);
    let mut out: Vec<Reading> = Vec::new();
    let mut i: usize = 0;
    let ghost want = qualified(all);
    assert(readings_view(out@) =~= want.take(0));
    while i < v.len()
        invariant
            i <= v@.len(),
            all == readings_view(v@),
            want == qualified(all),
            readings_view(out@) == want.take(i as int),
        decreases v@.len() - i,
    {
        assert(all[i as int] == v@[i as int]@);
        let r = &v[i];
        let slug: String = if count_uses(&v, r.slug.as_str()) > 1 {
            let c = slugify(r.chip.as_str());
            cat3(c.as_str(), "-", r.slug.as_str())
        } else {
            String::from_str(r.slug.as_str())
        };
        let ghost was = out@;
        let n = Reading {
            slug,
            label: String::from_str(r.label.as_str()),
            chip: String::from_str(r.chip.as_str()),
            value: r.value,
        };
        assert(n@ == want[i as int]);
        out.push(n);
        assert(readings_view(out@) =~= readings_view(was).push(n@));
        assert(want.take(i + 1) =~= want.take(i as int).push(want[i as int]));
        i += 1;
    }
    assert(want.take(i as int) =~= want);
    out
}

/// Every sensor on a list of chips.
pub open spec fn sensors_of(chips: Seq<ChipModel>) -> SensorsModel {
    let v = sorted_chips(chips);
    SensorsModel {
        temps: qualified(readings_over(v, Kind::Temp)),
        fans: qualified(readings_over(v, Kind::Fan)),
        pwm: qualified(readings_over(v, Kind::Pwm)),
    }
}

/// Every sensor on the box, out of its chips' directories.
///
/// Labels are kept as the kernel gives them: CPUTIN and SYSTIN mean something
/// to whoever reads a datasheet.
pub fn sensors(chips: &Vec<Chip>) -> (r: Sensors)
    ensures
        r@ == sensors_of(chips_view(chips@)),
{
    let order = ordered(chips);
    assert(ints(order@).map_values(|i: int| chips_view(chips@)[i]) =~= sorted_chips(chips_view(chips@)));
    Sensors {
        temps: qualify(read_all(chips, &order, Kind::Temp)),
        fans: qualify(read_all(chips, &order, Kind::Fan)),
        pwm: qualify(read_all(chips, &order, Kind::Pwm)),
    }
}

/// A list of readings as series of one kind.
pub open spec fn as_series(v: Seq<ReadingModel>, kind: Kind) -> Seq<(SeriesModel, int)> {
    v.map_values(
        |r: ReadingModel|
            (SeriesModel { slug: r.slug, label: r.label, chip: r.chip, kind: kind.word() }, r.value),
    )
}

/// The readings of a store's push, with their values as numbers.
pub open spec fn numbered(v: Seq<(SeriesModel, i64)>) -> Seq<(SeriesModel, int)> {
    v.map_values(|p: (SeriesModel, i64)| (p.0, p.1 as int))
}

/// Every reading, flattened for the history store: temperatures, fans, pwm.
pub open spec fn flattened(s: SensorsModel) -> Seq<(SeriesModel, int)> {
    as_series(s.temps, Kind::Temp) + as_series(s.fans, Kind::Fan) + as_series(s.pwm, Kind::Pwm)
}

fn flatten_one(v: &Vec<Reading>, kind: Kind, out: &mut Vec<(Series, i64)>)
    ensures
        numbered(readings_of(final(out)@)) == numbered(readings_of(old(out)@)) + as_series(
            readings_view(v@),
            kind,
        ),
{
    let ghost start = numbered(readings_of(out@));
    let ghost want = as_series(readings_view(v@), kind);
    let mut i: usize = 0;
    assert(start + want.take(0) =~= start);
    while i < v.len()
        invariant
            i <= v@.len(),
            want == as_series(readings_view(v@), kind),
            numbered(readings_of(out@)) == start + want.take(i as int),
        decreases v@.len() - i,
    {
        let r = &v[i];
        assert(readings_view(v@)[i as int] == v@[i as int]@);
        let ghost was = out@;
        let p: (Series, i64) = (
            Series {
                slug: String::from_str(r.slug.as_str()),
                label: String::from_str(r.label.as_str()),
                chip: String::from_str(r.chip.as_str()),
                kind: kind.name(),
            },
            r.value,
        );
        out.push(p);
        assert(numbered(readings_of(out@)) =~= numbered(readings_of(was)).push((p.0@, p.1 as int)));
        assert(want.take(i + 1) =~= want.take(i as int).push(want[i as int]));
        assert((start + want.take(i as int)).push(want[i as int]) =~= start + want.take(i + 1));
        i += 1;
    }
    assert(want.take(i as int) =~= want);
}

/// Every reading, flattened for the history store.
pub fn readings(s: &Sensors) -> (r: Vec<(Series, i64)>)
    ensures
        numbered(readings_of(r@)) == flattened(s@),
{
    let mut out: Vec<(Series, i64)> = Vec::new();
    assert(numbered(readings_of(out@)) + as_series(s@.temps, Kind::Temp) =~= as_series(s@.temps, Kind::Temp));
    flatten_one(&s.temps, Kind::Temp, &mut out);
    flatten_one(&s.fans, Kind::Fan, &mut out);
    flatten_one(&s.pwm, Kind::Pwm, &mut out);
    out
}

// ------------------------------------------------------------------- the processor

/// The words that are numbers, in order.
pub open spec fn numbers_in(ws: Seq<Seq<char>>) -> Seq<u64>
    decreases ws.len(),
{
    if ws.len() == 0 {
        seq![]
    } else {
        match parse_unsigned(ws.last(), 10, u64::MAX as nat) {
            Some(n) => numbers_in(ws.drop_last()).push(n as u64),
            None => numbers_in(ws.drop_last()),
        }
    }
}

pub open spec fn total_of(v: Seq<u64>) -> nat
    decreases v.len(),
{
    if v.len() == 0 {
        0
    } else {
        total_of(v.drop_last()) + v.last() as nat
    }
}

/// The numbers on the first line of `/proc/stat`, behind its first word.
pub open spec fn stat_numbers(stat: Seq<char>) -> Seq<u64> {
    let ls = lines(stat);
    if ls.len() == 0 {
        seq![]
    } else {
        let ws = words(ls[0]);
        numbers_in(if ws.len() == 0 { ws } else { ws.skip(1) })
    }
}

/// Idle time is time idle and time waiting for a device.
pub open spec fn idle_of(v: Seq<u64>) -> nat {
    v[3] as nat + if v.len() > 4 {
        v[4] as nat
    } else {
        0
    }
}

/// The busy share, in percent, between two readings of all time and idle time.
pub open spec fn busy(prev: Option<(u64, u64)>, total: nat, idle: nat) -> Option<nat> {
    match prev {
        Some((pt, pi)) => {
            if total > pt && idle >= pi {
                Some((100 * ((total - pt) - (idle - pi)) / (total - pt)) as nat)
            } else {
                None
            }
        },
        None => None,
    }
}

/// The counters make sense where a percentage is made of them: their sum fits, and
/// where time went by, no more of it went by idle, and a hundred times the busy part
/// fits.
pub open spec fn counters_fit(prev: Option<(u64, u64)>, v: Seq<u64>) -> bool {
    v.len() >= 4 ==> {
        &&& total_of(v) <= u64::MAX
        &&& match prev {
            Some((pt, pi)) => total_of(v) > pt && idle_of(v) >= pi ==> {
                &&& idle_of(v) - pi <= total_of(v) - pt
                &&& 100 * ((total_of(v) - pt) - (idle_of(v) - pi)) <= u64::MAX
            },
            None => true,
        }
    }
}

/// Busy percentage, from the difference between two readings of `/proc/stat`.
///
/// Stateful by necessity: the file holds time since boot, so a single reading
/// tells the average since power-on and nothing about now.
#[derive(Debug)]
pub struct Cpu {
    prev: Option<(u64, u64)>,
}

fn numbers_of(ws: &[&[char]]) -> (r: Vec<u64>)
    ensures
        r@ == numbers_in(slices(ws@)),
{
    let ghost all = slices(ws@);
    let mut out: Vec<u64> = Vec::new();
    let mut i: usize = 0;
    assert(out@ =~= numbers_in(all.take(0)));
    while i < ws.len()
        invariant
            i <= ws@.len(),
            all == slices(ws@),
            out@ == numbers_in(all.take(i as int)),
        decreases ws@.len() - i,
    {
        assert(all.take(i + 1).drop_last() =~= all.take(i as int));
        assert(all.take(i + 1).last() == ws@[i as int]@);
        if let Some(n) = parse_number(ws[i], 10, u64::MAX) {
            out.push(n);
        }
        i += 1;
    }
    assert(all.take(i as int) =~= all);
    out
}

fn read_stat(stat: &str) -> (r: Vec<u64>)
    ensures
        r@ == stat_numbers(stat@),
{
    let chars = to_chars(stat);
    let ls = lines_of(chars.as_slice());
    assert(slices(ls@).len() == ls@.len());
    if ls.len() == 0 {
        return Vec::new();
    }
    assert(slices(ls@)[0] == ls@[0]@);
    let ws = words_of(ls[0]);
    assert(slices(ws@).len() == ws@.len());
    if ws.len() == 0 {
        let r: Vec<u64> = Vec::new();
        assert(r@ =~= numbers_in(slices(ws@)));
        return r;
    }
    let rest = slice_subrange(ws.as_slice(), 1, ws.len());
    assert(slices(rest@) =~= slices(ws@).skip(1));
    numbers_of(rest)
}

proof fn lemma_total_grows(v: Seq<u64>, i: int)
    requires
        0 <= i <= v.len(),
    ensures
        total_of(v.take(i)) <= total_of(v),
    decreases v.len() - i,
{
    if i == v.len() {
        assert(v.take(i) =~= v);
    } else {
        lemma_total_grows(v, i + 1);
        assert(v.take(i + 1).drop_last() =~= v.take(i));
    }
}

fn sum(v: &Vec<u64>) -> (r: Option<u64>)
    ensures
        match r {
            Some(n) => n == total_of(v@),
            None => total_of(v@) > u64::MAX,
        },
{
    let mut n: u64 = 0;
    let mut i: usize = 0;
    assert(v@.take(0) =~= seq![]);
    while i < v.len()
        invariant
            i <= v@.len(),
            n == total_of(v@.take(i as int)),
        decreases v@.len() - i,
    {
        assert(v@.take(i + 1).drop_last() =~= v@.take(i as int));
        proof {
            lemma_total_grows(v@, i + 1);
        }
        if v[i] > u64::MAX - n {
            return None;
        }
        n += v[i];
        i += 1;
    }
    assert(v@.take(i as int) =~= v@);
    Some(n)
}

proof fn lemma_idle_within(v: Seq<u64>)
    requires
        v.len() >= 4,
    ensures
        idle_of(v) <= total_of(v),
{
    assert(v.take(4).drop_last() =~= v.take(3));
    assert(v.take(4).last() == v[3]);
    assert(total_of(v.take(4)) == total_of(v.take(3)) + v[3] as nat);
    if v.len() > 4 {
        lemma_total_grows(v, 5);
        assert(v.take(5).drop_last() =~= v.take(4));
        assert(v.take(5).last() == v[4]);
    } else {
        lemma_total_grows(v, 4);
    }
}

impl Cpu {
    /// The total and the idle time of the last reading.
    pub closed spec fn last(&self) -> Option<(u64, u64)> {
        self.prev
    }

    pub fn new() -> (r: Cpu)
        ensures
            r.last() is None,
    {
        Cpu { prev: None }
    }

    /// Whether the counters of a reading make sense after the last one.
    pub fn fits(&self, stat: &str) -> (r: bool)
        ensures
            r == counters_fit(self.last(), stat_numbers(stat@)),
    {
        let v = read_stat(stat);
        if v.len() < 4 {
            return true;
        }
        match sum(&v) {
            None => false,
            Some(total) => {
                proof {
                    lemma_idle_within(v@);
                }
                let idle: u64 = v[3] + if v.len() > 4 {
                    v[4]
                } else {
                    0
                };
                match self.prev {
                    Some((pt, pi)) => {
                        if total > pt && idle >= pi {
                            idle - pi <= total - pt && (total - pt) - (idle - pi) <= u64::MAX / 100
                        } else {
                            true
                        }
                    },
                    None => true,
                }
            },
        }
    }

    /// The busy percentage since the last reading, and the reading kept for the
    /// next time. A text without at least four counters changes nothing.
    pub fn sample(&mut self, stat: &str) -> (r: Option<u8>)
        requires
            counters_fit(old(self).last(), stat_numbers(stat@)),
        ensures
            ({
                let v = stat_numbers(stat@);
                if v.len() < 4 {
                    r is None && final(self).last() == old(self).last()
                } else {
                    &&& match r {
                        Some(p) => busy(old(self).last(), total_of(v), idle_of(v)) == Some(p as nat) && p <= 100,
                        None => busy(old(self).last(), total_of(v), idle_of(v)) is None,
                    }
                    &&& final(self).last() == Some((total_of(v) as u64, idle_of(v) as u64))
                }
            }),
    {
        let v = read_stat(stat);
        if v.len() < 4 {
            return None;
        }
        let total: u64 = match sum(&v) {
            Some(n) => n,
            None => 0,
        };
        proof {
            lemma_idle_within(v@);
        }
        let idle: u64 = v[3] + if v.len() > 4 {
            v[4]
        } else {
            0
        };
        let r: Option<u8> = match self.prev {
            Some((pt, pi)) => {
                if total > pt && idle >= pi {
                    let dt: u64 = total - pt;
                    let di: u64 = idle - pi;
                    let p: u64 = 100 * (dt - di) / dt;
                    assert(100 * (dt - di) / dt as int <= 100) by (nonlinear_arith)
                        requires
                            dt > 0,
                            0 <= di <= dt,
                    ;
                    Some(p as u8)
                } else {
                    None
                }
            },
            None => None,
        };
        self.prev = Some((total, idle));
        r
    }
}

// --------------------------------------------------------------------- the memory

/// What stands behind a key on the first line that starts with it.
pub open spec fn meminfo_value(ls: Seq<Seq<char>>, key: Seq<char>) -> Option<nat>
    decreases ls.len(),
{
    if ls.len() == 0 {
        None
    } else if starts_with(ls[0], key) {
        let ws = words(ls[0]);
        if ws.len() < 2 {
            None
        } else {
            parse_unsigned(ws[1], 10, u64::MAX as nat)
        }
    } else {
        meminfo_value(ls.skip(1), key)
    }
}

fn meminfo_get(ls: &Vec<&[char]>, key: &str) -> (r: Option<u64>)
    ensures
        match r {
            Some(n) => meminfo_value(slices(ls@), key@) == Some(n as nat),
            None => meminfo_value(slices(ls@), key@) is None,
        },
{
    let ghost all = slices(ls@);
    let mut i: usize = 0;
    assert(all.skip(0) =~= all);
    while i < ls.len()
        invariant
            i <= ls@.len(),
            all == slices(ls@),
            meminfo_value(all, key@) == meminfo_value(all.skip(i as int), key@),
        decreases ls@.len() - i,
    {
        assert(all.skip(i as int)[0] == ls@[i as int]@);
        if starts_with_str(ls[i], key) {
            let ws = words_of(ls[i]);
            assert(slices(ws@).len() == ws@.len());
            if ws.len() < 2 {
                return None;
            }
            assert(slices(ws@)[1] == ws@[1]@);
            return parse_number(ws[1], 10, u64::MAX);
        }
        assert(all.skip(i as int).skip(1) =~= all.skip(i + 1));
        i += 1;
    }
    None
}

/// All memory and the memory to be had, in kilobytes.
pub open spec fn mem_of(meminfo: Seq<char>) -> Option<(nat, nat)> {
    match (meminfo_value(lines(meminfo), "MemTotal:"@), meminfo_value(lines(meminfo), "MemAvailable:"@)) {
        (Some(t), Some(a)) => Some((t, a)),
        _ => None,
    }
}

/// All memory and the memory to be had, out of `/proc/meminfo`.
pub fn mem(meminfo: &str) -> (r: Option<(u64, u64)>)
    ensures
        match r {
            Some((t, a)) => mem_of(meminfo@) == Some((t as nat, a as nat)),
            None => mem_of(meminfo@) is None,
        },
{
    let chars = to_chars(meminfo);
    let ls = lines_of(chars.as_slice());
    match meminfo_get(&ls, "MemTotal:") {
        Some(t) => match meminfo_get(&ls, "MemAvailable:") {
            Some(a) => Some((t, a)),
            None => None,
        },
        None => None,
    }
}

/// The share of memory in use, in percent; nothing when the total is not known.
pub fn mem_used_pct(total: u64, avail: u64) -> (r: Option<u8>)
    requires
        total > 0 ==> avail <= total && (total - avail) * 100 <= u64::MAX,
    ensures
        r is None <==> total == 0,
        r matches Some(p) ==> p as nat == ((total - avail) * 100) as nat / total as nat && p <= 100,
        total > 0 && avail == total ==> r == Some(0u8),
        total > 0 && avail == 0 ==> r == Some(100u8),
        r matches Some(p) ==> p * total <= 100 * (total - avail) < (p + 1) * total,
{
    if total == 0 {
        None
    } else {
        let p: u64 = (total - avail) * 100 / total;
        assert((total - avail) * 100 / total as int <= 100) by (nonlinear_arith)
            requires
                total > 0,
                0 <= avail <= total,
        ;
        assert(p * total <= 100 * (total - avail) < (p + 1) * total) by (nonlinear_arith)
            requires
                total > 0,
                0 <= avail <= total,
                p == (total - avail) * 100 / total as int,
        ;
        assert(avail == 0 ==> p == 100) by (nonlinear_arith)
            requires
                total > 0,
                p == (total - avail) * 100 / total as int,
        ;
        assert(avail == total ==> p == 0) by (nonlinear_arith)
            requires
                total > 0,
                p == (total - avail) * 100 / total as int,
        ;
        Some(p as u8)
    }
}

} // verus!
