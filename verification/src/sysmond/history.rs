//! A fixed-size ring of samples.
//!
//! Bounded on purpose: history has a hard ceiling rather than a policy. The ring
//! overwrites, and what the daemon holds is the same after a month as after a
//! minute.
//!
//! Samples are compact: bare numbers in a fixed order, with the sensor labels
//! held once alongside.
use crate::json::{list, members, object, put, text, values, with, Json, JsonModel, Member};
use crate::num::{dec_signed, dec_signed_string, parse_number, parse_unsigned};
use crate::flasher::board::opt_str;
use crate::text::{opt, same, to_chars};
use std::collections::VecDeque;
use vstd::prelude::*;
use vstd::string::*;

verus! {

/// What a sensor is, stored once.
#[derive(Debug)]
pub struct Series {
    pub slug: String,
    pub label: String,
    pub chip: String,
    /// `temp`, `fan` or `pwm`.
    pub kind: &'static str,
}

pub ghost struct SeriesModel {
    pub slug: Seq<char>,
    pub label: Seq<char>,
    pub chip: Seq<char>,
    pub kind: Seq<char>,
}

impl View for Series {
    type V = SeriesModel;

    open spec fn view(&self) -> SeriesModel {
        SeriesModel { slug: self.slug@, label: self.label@, chip: self.chip@, kind: self.kind@ }
    }
}

pub open spec fn series_of(v: Seq<Series>) -> Seq<SeriesModel> {
    v.map_values(|s: Series| s@)
}

/// What every sensor read at one instant, by its place in the series.
#[derive(Debug)]
pub struct Sample {
    pub at: u64,
    pub v: Vec<Option<i64>>,
    pub cpu: Option<u8>,
    /// The one-minute load, as the number is written in a document.
    pub load1: Option<String>,
    pub mem_used_pct: Option<u8>,
}

pub ghost struct SampleModel {
    pub at: nat,
    pub v: Seq<Option<i64>>,
    pub cpu: Option<u8>,
    pub load1: Option<Seq<char>>,
    pub mem_used_pct: Option<u8>,
}

impl View for Sample {
    type V = SampleModel;

    open spec fn view(&self) -> SampleModel {
        SampleModel {
            at: self.at as nat,
            v: self.v@,
            cpu: self.cpu,
            load1: opt(self.load1),
            mem_used_pct: self.mem_used_pct,
        }
    }
}

pub open spec fn samples_of(v: Seq<Sample>) -> Seq<SampleModel> {
    v.map_values(|s: Sample| s@)
}

/// The models of a set of readings.
pub open spec fn readings_of(v: Seq<(Series, i64)>) -> Seq<(SeriesModel, i64)> {
    v.map_values(|p: (Series, i64)| (p.0@, p.1))
}

pub ghost struct StoreModel {
    pub series: Seq<SeriesModel>,
    pub ring: Seq<SampleModel>,
    pub cap: nat,
}

/// One sensor is another when slug and kind are the same.
pub open spec fn same_sensor(a: SeriesModel, b: SeriesModel) -> bool {
    a.slug == b.slug && a.kind == b.kind
}

pub open spec fn is_known(known: Seq<SeriesModel>, s: SeriesModel) -> bool {
    exists|i: int| 0 <= i < known.len() && same_sensor(#[trigger] known[i], s)
}

/// The series once the readings' sensors that were not known are added behind.
pub open spec fn extended(known: Seq<SeriesModel>, r: Seq<(SeriesModel, i64)>) -> Seq<SeriesModel>
    decreases r.len(),
{
    if r.len() == 0 {
        known
    } else {
        let before = extended(known, r.drop_last());
        if is_known(before, r.last().0) {
            before
        } else {
            before.push(r.last().0)
        }
    }
}

/// What the first reading of a sensor says, if there is one.
pub open spec fn reading_of(r: Seq<(SeriesModel, i64)>, s: SeriesModel) -> Option<i64>
    decreases r.len(),
{
    if r.len() == 0 {
        None
    } else if same_sensor(r[0].0, s) {
        Some(r[0].1)
    } else {
        reading_of(r.skip(1), s)
    }
}

/// The readings in the order of the series.
pub open spec fn aligned(series: Seq<SeriesModel>, r: Seq<(SeriesModel, i64)>) -> Seq<Option<i64>> {
    series.map_values(|s: SeriesModel| reading_of(r, s))
}

/// The ring with one sample more: the oldest goes when it is full.
pub open spec fn pushed(ring: Seq<SampleModel>, cap: nat, s: SampleModel) -> Seq<SampleModel> {
    if ring.len() == cap {
        ring.skip(1).push(s)
    } else {
        ring.push(s)
    }
}

/// The samples at or after an instant.
pub open spec fn from_instant(ring: Seq<SampleModel>, since: nat) -> Seq<SampleModel>
    decreases ring.len(),
{
    if ring.len() == 0 {
        seq![]
    } else if ring.last().at >= since {
        from_instant(ring.drop_last(), since).push(ring.last())
    } else {
        from_instant(ring.drop_last(), since)
    }
}

/// How many samples a window holds at a period, and never fewer than two.
pub open spec fn room(window: nat, period: nat) -> nat {
    let p = if period < 1 {
        1
    } else {
        period
    };
    if window / p < 2 {
        2
    } else {
        window / p
    }
}

impl StoreModel {
    /// A reading set taken in.
    pub open spec fn push(
        self,
        at: nat,
        r: Seq<(SeriesModel, i64)>,
        cpu: Option<u8>,
        load1: Option<Seq<char>>,
        mem_used_pct: Option<u8>,
    ) -> StoreModel {
        let series = extended(self.series, r);
        StoreModel {
            series,
            ring: pushed(
                self.ring,
                self.cap,
                SampleModel { at, v: aligned(series, r), cpu, load1, mem_used_pct },
            ),
            cap: self.cap,
        }
    }

    /// The ring holds no more than its ceiling, and no sample has a value for a
    /// sensor that is not in the series.
    pub open spec fn wf(self) -> bool {
        &&& self.cap >= 2
        &&& self.ring.len() <= self.cap
        &&& forall|i: int| 0 <= i < self.ring.len() ==> (#[trigger] self.ring[i]).v.len() <= self.series.len()
    }
}

pub struct Store {
    pub series: Vec<Series>,
    ring: VecDeque<Sample>,
    cap: usize,
}

impl View for Store {
    type V = StoreModel;

    closed spec fn view(&self) -> StoreModel {
        StoreModel { series: series_of(self.series@), ring: samples_of(self.ring@), cap: self.cap as nat }
    }
}

fn copy_series(s: &Series) -> (r: Series)
    ensures
        r@ == s@,
{
    Series {
        slug: String::from_str(s.slug.as_str()),
        label: String::from_str(s.label.as_str()),
        chip: String::from_str(s.chip.as_str()),
        kind: s.kind,
    }
}

fn sensors_match(a: &Series, b: &Series) -> (r: bool)
    ensures
        r == same_sensor(a@, b@),
{
    same(a.slug.as_str(), b.slug.as_str()) && same(a.kind, b.kind)
}

fn knows(known: &Vec<Series>, s: &Series) -> (r: bool)
    ensures
        r == is_known(series_of(known@), s@),
{
    let mut i: usize = 0;
    let ghost all = series_of(known@);
    while i < known.len()
        invariant
            i <= known@.len(),
            all == series_of(known@),
            forall|j: int| 0 <= j < i ==> !same_sensor(#[trigger] all[j], s@),
        decreases known@.len() - i,
    {
        assert(all[i as int] == known@[i as int]@);
        if sensors_match(&known[i], s) {
            return true;
        }
        i += 1;
    }
    false
}

fn find_reading(readings: &[(Series, i64)], s: &Series) -> (r: Option<i64>)
    ensures
        r == reading_of(readings_of(readings@), s@),
{
    let ghost all = readings_of(readings@);
    let mut i: usize = 0;
    assert(all.skip(0) =~= all);
    while i < readings.len()
        invariant
            i <= readings@.len(),
            all == readings_of(readings@),
            reading_of(all, s@) == reading_of(all.skip(i as int), s@),
        decreases readings@.len() - i,
    {
        assert(all.skip(i as int)[0] == (readings@[i as int].0@, readings@[i as int].1));
        if sensors_match(&readings[i].0, s) {
            return Some(readings[i].1);
        }
        assert(all.skip(i as int).skip(1) =~= all.skip(i + 1));
        i += 1;
    }
    None
}

fn align(series: &Vec<Series>, readings: &[(Series, i64)]) -> (r: Vec<Option<i64>>)
    ensures
        r@ == aligned(series_of(series@), readings_of(readings@)),
{
    let ghost want = aligned(series_of(series@), readings_of(readings@));
    let mut out: Vec<Option<i64>> = Vec::new();
    let mut i: usize = 0;
    assert(out@ =~= want.take(0));
    while i < series.len()
        invariant
            i <= series@.len(),
            want == aligned(series_of(series@), readings_of(readings@)),
            out@ == want.take(i as int),
        decreases series@.len() - i,
    {
        let v: Option<i64> = find_reading(readings, &series[i]);
        assert(series_of(series@)[i as int] == series@[i as int]@);
        assert(want[i as int] == v);
        out.push(v);
        assert(out@ =~= want.take(i + 1));
        i += 1;
    }
    assert(want.take(i as int) =~= want);
    out
}

/// The series only ever grow at their end: a place, once given, keeps its
/// sensor, so no point already recorded changes its label.
pub proof fn law_no_point_is_relabelled(known: Seq<SeriesModel>, r: Seq<(SeriesModel, i64)>)
    ensures
        known.len() <= extended(known, r).len(),
        extended(known, r).take(known.len() as int) == known,
    decreases r.len(),
{
    if r.len() == 0 {
        assert(known.take(known.len() as int) =~= known);
    } else {
        law_no_point_is_relabelled(known, r.drop_last());
        assert(extended(known, r).take(known.len() as int) =~= extended(known, r.drop_last()).take(
            known.len() as int,
        ));
    }
}

/// The ceiling is hard: no reading set moves it or takes the ring past it, and
/// the newest sample is the one just taken.
pub proof fn law_memory_is_bounded(
    s: StoreModel,
    at: nat,
    r: Seq<(SeriesModel, i64)>,
    cpu: Option<u8>,
    load1: Option<Seq<char>>,
    mem: Option<u8>,
)
    requires
        s.wf(),
    ensures
        s.push(at, r, cpu, load1, mem).wf(),
        s.push(at, r, cpu, load1, mem).cap == s.cap,
        s.push(at, r, cpu, load1, mem).ring.last().at == at,
        s.push(at, r, cpu, load1, mem).ring.len() == if s.ring.len() == s.cap {
            s.cap
        } else {
            s.ring.len() + 1
        },
{
    law_no_point_is_relabelled(s.series, r);
    let n = s.push(at, r, cpu, load1, mem);
    assert forall|i: int| 0 <= i < n.ring.len() implies (#[trigger] n.ring[i]).v.len() <= n.series.len() by {
        let was = if s.ring.len() == s.cap {
            s.ring.skip(1)
        } else {
            s.ring
        };
        if i < was.len() {
            assert(n.ring[i] == was[i]);
            let k = if s.ring.len() == s.cap {
                i + 1
            } else {
                i
            };
            assert(was[i] == s.ring[k]);
        }
    }
}

impl Store {
    /// What always holds of a store.
    pub open spec fn wf(self) -> bool {
        self@.wf()
    }

    /// `window` seconds of history at `period` seconds per sample.
    pub fn new(window: u64, period: u64) -> (r: Store)
        requires
            room(window as nat, period as nat) <= usize::MAX,
        ensures
            r@ == (StoreModel { series: seq![], ring: seq![], cap: room(window as nat, period as nat) }),
            r.wf(),
    {
        let p: u64 = if period < 1 {
            1
        } else {
            period
        };
        let n: u64 = window / p;
        let cap: usize = if n < 2 {
            2
        } else {
            n as usize
        };
        let r = Store { series: Vec::new(), ring: VecDeque::new(), cap };
        assert(r@.series =~= seq![]);
        assert(r@.ring =~= seq![]);
        r
    }

    /// Take a reading set and align it to the known series.
    ///
    /// A sensor that appears later extends the series rather than invalidating
    /// history: older samples have no value at that place.
    pub fn push(
        &mut self,
        at: u64,
        readings: &[(Series, i64)],
        cpu: Option<u8>,
        load1: Option<String>,
        mem_used_pct: Option<u8>,
    )
        requires
            old(self).wf(),
        ensures
            final(self)@ == old(self)@.push(at as nat, readings_of(readings@), cpu, opt(load1), mem_used_pct),
            final(self).wf(),
    {
        proof {
            law_memory_is_bounded(self@, at as nat, readings_of(readings@), cpu, opt(load1), mem_used_pct);
        }
        let ghost was = self@;
        let ghost all = readings_of(readings@);
        let mut i: usize = 0;
        assert(all.take(0) =~= seq![]);
        while i < readings.len()
            invariant
                i <= readings@.len(),
                all == readings_of(readings@),
                series_of(self.series@) == extended(was.series, all.take(i as int)),
                samples_of(self.ring@) == was.ring,
                self.cap as nat == was.cap,
            decreases readings@.len() - i,
        {
            assert(all.take(i + 1).drop_last() =~= all.take(i as int));
            assert(all.take(i + 1).last() == (readings@[i as int].0@, readings@[i as int].1));
            let ghost had = self.series@;
            if !knows(&self.series, &readings[i].0) {
                let s = copy_series(&readings[i].0);
                self.series.push(s);
                assert(series_of(self.series@) =~= series_of(had).push(s@));
            }
            i += 1;
        }
        assert(all.take(all.len() as int) =~= all);
        let v = align(&self.series, readings);
        let ghost had = self.ring@;
        if self.ring.len() == self.cap {
            self.ring.pop_front();
            assert(samples_of(self.ring@) =~= was.ring.skip(1));
        }
        let ghost cut = self.ring@;
        let s = Sample { at, v, cpu, load1, mem_used_pct };
        self.ring.push_back(s);
        assert(samples_of(self.ring@) =~= samples_of(cut).push(s@));
    }

    /// The newest sample.
    pub fn latest(&self) -> (r: Option<&Sample>)
        ensures
            match r {
                Some(s) => self@.ring.len() > 0 && s@ == self@.ring.last(),
                None => self@.ring.len() == 0,
            },
    {
        let n: usize = self.ring.len();
        if n == 0 {
            None
        } else {
            Some(&self.ring[n - 1])
        }
    }

    /// Everything at or after `since` unix seconds; all of it when `since` is 0.
    pub fn since(&self, since: u64) -> (r: Vec<&Sample>)
        ensures
            r@.map_values(|s: &Sample| s@) == from_instant(self@.ring, since as nat),
    {
        let mut out: Vec<&Sample> = Vec::new();
        let mut i: usize = 0;
        let ghost view = |s: &Sample| s@;
        assert(out@.map_values(view) =~= from_instant(self@.ring.take(0), since as nat));
        while i < self.ring.len()
            invariant
                i <= self.ring@.len(),
                view == (|s: &Sample| s@),
                out@.map_values(view) == from_instant(self@.ring.take(i as int), since as nat),
            decreases self.ring@.len() - i,
        {
            assert(self@.ring.take(i + 1).drop_last() =~= self@.ring.take(i as int));
            assert(self@.ring.take(i + 1).last() == self.ring@[i as int]@);
            let s: &Sample = &self.ring[i];
            if s.at >= since {
                let ghost was = out@;
                out.push(s);
                assert(out@.map_values(view) =~= was.map_values(view).push(s@));
            }
            i += 1;
        }
        assert(self@.ring.take(self@.ring.len() as int) =~= self@.ring);
        out
    }

    pub fn len(&self) -> (r: usize)
        ensures
            r == self@.ring.len(),
    {
        self.ring.len()
    }

    pub fn capacity(&self) -> (r: usize)
        ensures
            r == self@.cap,
    {
        self.cap
    }
}

/// Asked from the beginning of time, the store gives everything it holds.
pub proof fn law_zero_asks_for_everything(ring: Seq<SampleModel>)
    ensures
        from_instant(ring, 0) == ring,
    decreases ring.len(),
{
    if ring.len() > 0 {
        law_zero_asks_for_everything(ring.drop_last());
        assert(ring.drop_last().push(ring.last()) =~= ring);
    } else {
        assert(ring =~= seq![]);
    }
}

/// What one round of the sampler hands to the store.
pub ghost struct RoundModel {
    pub at: nat,
    pub r: Seq<(SeriesModel, i64)>,
    pub cpu: Option<u8>,
    pub load1: Option<Seq<char>>,
    pub mem_used_pct: Option<u8>,
}

/// A new store after these rounds.
pub open spec fn stored(cap: nat, rounds: Seq<RoundModel>) -> StoreModel
    decreases rounds.len(),
{
    if rounds.len() == 0 {
        StoreModel { series: seq![], ring: seq![], cap }
    } else {
        let x = rounds.last();
        stored(cap, rounds.drop_last()).push(x.at, x.r, x.cpu, x.load1, x.mem_used_pct)
    }
}

/// The sample a round left, against the series known then.
pub open spec fn recorded(cap: nat, rounds: Seq<RoundModel>, k: int) -> SampleModel {
    let x = rounds[k];
    SampleModel {
        at: x.at,
        v: aligned(stored(cap, rounds.take(k + 1)).series, x.r),
        cpu: x.cpu,
        load1: x.load1,
        mem_used_pct: x.mem_used_pct,
    }
}

/// After any run of the sampler the store holds the last rounds, as many as its
/// ceiling allows, in order and as they were recorded; and every place a round
/// was recorded against still names the same sensor.
pub proof fn law_the_store_holds_the_last_rounds(cap: nat, rounds: Seq<RoundModel>, k: int)
    requires
        cap >= 2,
        rounds.len() - stored(cap, rounds).ring.len() <= k < rounds.len(),
    ensures
        stored(cap, rounds).ring.len() == (if rounds.len() < cap {
            rounds.len()
        } else {
            cap
        }),
        stored(cap, rounds).ring[k - (rounds.len() - stored(cap, rounds).ring.len())] == recorded(cap, rounds, k),
        stored(cap, rounds.take(k + 1)).series.len() <= stored(cap, rounds).series.len(),
        stored(cap, rounds).series.take(stored(cap, rounds.take(k + 1)).series.len() as int) == stored(
            cap,
            rounds.take(k + 1),
        ).series,
    decreases rounds.len(),
{
    lemma_stored_len(cap, rounds);
    if rounds.len() > 0 {
        let before = rounds.drop_last();
        let s = stored(cap, before);
        let n = stored(cap, rounds);
        lemma_stored_len(cap, before);
        law_no_point_is_relabelled(s.series, rounds.last().r);
        if k == rounds.len() - 1 {
            assert(rounds.take(k + 1) =~= rounds);
            assert(n.series.take(n.series.len() as int) =~= n.series);
        } else {
            law_the_store_holds_the_last_rounds(cap, before, k);
            assert(before.take(k + 1) =~= rounds.take(k + 1));
            let m = stored(cap, rounds.take(k + 1)).series.len() as int;
            assert(n.series.take(m) =~= n.series.take(s.series.len() as int).take(m));
        }
    }
}

proof fn lemma_stored_len(cap: nat, rounds: Seq<RoundModel>)
    requires
        cap >= 2,
    ensures
        stored(cap, rounds).cap == cap,
        stored(cap, rounds).ring.len() == (if rounds.len() < cap {
            rounds.len()
        } else {
            cap
        }),
    decreases rounds.len(),
{
    if rounds.len() > 0 {
        lemma_stored_len(cap, rounds.drop_last());
    }
}

// --------------------------------------------------------------------- documents

pub open spec fn signed_doc(o: Option<i64>) -> JsonModel {
    match o {
        Some(n) => JsonModel::Raw(dec_signed(n as int)),
        None => JsonModel::Nil,
    }
}

pub open spec fn small_doc(o: Option<u8>) -> JsonModel {
    match o {
        Some(n) => JsonModel::Number(n as nat),
        None => JsonModel::Nil,
    }
}

pub open spec fn large_doc(o: Option<u64>) -> JsonModel {
    match o {
        Some(n) => JsonModel::Number(n as nat),
        None => JsonModel::Nil,
    }
}

pub open spec fn raw_doc(o: Option<Seq<char>>) -> JsonModel {
    match o {
        Some(t) => JsonModel::Raw(t),
        None => JsonModel::Nil,
    }
}

pub open spec fn values_doc(v: Seq<Option<i64>>) -> JsonModel {
    JsonModel::List(v.map_values(|o: Option<i64>| signed_doc(o)))
}

pub open spec fn one_series_doc(s: SeriesModel) -> JsonModel {
    JsonModel::Object(
        with(
            with(
                with(with(seq![], "slug"@, JsonModel::Text(s.slug)), "label"@, JsonModel::Text(s.label)),
                "chip"@,
                JsonModel::Text(s.chip),
            ),
            "kind"@,
            JsonModel::Text(s.kind),
        ),
    )
}

pub open spec fn series_doc(v: Seq<SeriesModel>) -> JsonModel {
    JsonModel::List(v.map_values(|s: SeriesModel| one_series_doc(s)))
}

pub open spec fn sample_doc(s: SampleModel) -> JsonModel {
    JsonModel::Object(
        with(
            with(
                with(
                    with(with(seq![], "at"@, JsonModel::Number(s.at)), "v"@, values_doc(s.v)),
                    "cpu"@,
                    small_doc(s.cpu),
                ),
                "load1"@,
                raw_doc(s.load1),
            ),
            "mem_used_pct"@,
            small_doc(s.mem_used_pct),
        ),
    )
}

pub open spec fn samples_doc(v: Seq<SampleModel>) -> JsonModel {
    JsonModel::List(v.map_values(|s: SampleModel| sample_doc(s)))
}

fn signed_json(o: Option<i64>) -> (r: Json)
    ensures
        r@ == signed_doc(o),
{
    match o {
        Some(n) => Json::Raw(dec_signed_string(n)),
        None => Json::Nil,
    }
}

fn small_json(o: Option<u8>) -> (r: Json)
    ensures
        r@ == small_doc(o),
{
    match o {
        Some(n) => Json::Number(n as u64),
        None => Json::Nil,
    }
}

fn large_json(o: Option<u64>) -> (r: Json)
    ensures
        r@ == large_doc(o),
{
    match o {
        Some(n) => Json::Number(n),
        None => Json::Nil,
    }
}

fn raw_json(o: &Option<String>) -> (r: Json)
    ensures
        r@ == raw_doc(opt(*o)),
{
    match o {
        Some(t) => Json::Raw(String::from_str(t.as_str())),
        None => Json::Nil,
    }
}

fn values_json(v: &Vec<Option<i64>>) -> (r: Json)
    ensures
        r@ == values_doc(v@),
{
    let ghost want = v@.map_values(|o: Option<i64>| signed_doc(o));
    let mut out: Vec<Json> = Vec::new();
    let mut i: usize = 0;
    assert(values(out@) =~= want.take(0));
    while i < v.len()
        invariant
            i <= v@.len(),
            want == v@.map_values(|o: Option<i64>| signed_doc(o)),
            values(out@) == want.take(i as int),
        decreases v@.len() - i,
    {
        let ghost was = out@;
        let j = signed_json(v[i]);
        out.push(j);
        assert(values(out@) =~= values(was).push(j@));
        assert(want.take(i + 1) =~= want.take(i as int).push(want[i as int]));
        i += 1;
    }
    assert(want.take(i as int) =~= want);
    list(out)
}

fn one_series_json(s: &Series) -> (r: Json)
    ensures
        r@ == one_series_doc(s@),
{
    let mut o: Vec<Member> = Vec::new();
    assert(members(o@) =~= seq![]);
    put(&mut o, "slug", text(s.slug.as_str()));
    put(&mut o, "label", text(s.label.as_str()));
    put(&mut o, "chip", text(s.chip.as_str()));
    put(&mut o, "kind", text(s.kind));
    object(o)
}

fn series_json(v: &Vec<Series>) -> (r: Json)
    ensures
        r@ == series_doc(series_of(v@)),
{
    let ghost want = series_of(v@).map_values(|s: SeriesModel| one_series_doc(s));
    let mut out: Vec<Json> = Vec::new();
    let mut i: usize = 0;
    assert(values(out@) =~= want.take(0));
    while i < v.len()
        invariant
            i <= v@.len(),
            want == series_of(v@).map_values(|s: SeriesModel| one_series_doc(s)),
            values(out@) == want.take(i as int),
        decreases v@.len() - i,
    {
        let ghost was = out@;
        let j = one_series_json(&v[i]);
        assert(series_of(v@)[i as int] == v@[i as int]@);
        out.push(j);
        assert(values(out@) =~= values(was).push(j@));
        assert(want.take(i + 1) =~= want.take(i as int).push(want[i as int]));
        i += 1;
    }
    assert(want.take(i as int) =~= want);
    list(out)
}

fn sample_json(s: &Sample) -> (r: Json)
    ensures
        r@ == sample_doc(s@),
{
    let mut o: Vec<Member> = Vec::new();
    assert(members(o@) =~= seq![]);
    put(&mut o, "at", Json::Number(s.at));
    put(&mut o, "v", values_json(&s.v));
    put(&mut o, "cpu", small_json(s.cpu));
    put(&mut o, "load1", raw_json(&s.load1));
    put(&mut o, "mem_used_pct", small_json(s.mem_used_pct));
    object(o)
}

fn samples_json(v: &Vec<&Sample>) -> (r: Json)
    ensures
        r@ == samples_doc(v@.map_values(|s: &Sample| s@)),
{
    let ghost all = v@.map_values(|s: &Sample| s@);
    let ghost want = all.map_values(|s: SampleModel| sample_doc(s));
    let mut out: Vec<Json> = Vec::new();
    let mut i: usize = 0;
    assert(values(out@) =~= want.take(0));
    while i < v.len()
        invariant
            i <= v@.len(),
            all == v@.map_values(|s: &Sample| s@),
            want == all.map_values(|s: SampleModel| sample_doc(s)),
            values(out@) == want.take(i as int),
        decreases v@.len() - i,
    {
        let ghost was = out@;
        let j = sample_json(v[i]);
        assert(all[i as int] == v@[i as int]@);
        out.push(j);
        assert(values(out@) =~= values(was).push(j@));
        assert(want.take(i + 1) =~= want.take(i as int).push(want[i as int]));
        i += 1;
    }
    assert(want.take(i as int) =~= want);
    list(out)
}

/// The newest sample with its labels.
pub open spec fn now_doc(st: StoreModel, uptime: Option<u64>, mem_total: Option<u64>) -> JsonModel {
    let s = st.ring.last();
    let held = st.ring.len() > 0;
    let o = with(seq![], "at"@, if held { JsonModel::Number(s.at) } else { JsonModel::Nil });
    let o = with(o, "series"@, series_doc(st.series));
    let o = with(o, "values"@, if held { values_doc(s.v) } else { JsonModel::Nil });
    let o = with(o, "cpu"@, if held { small_doc(s.cpu) } else { JsonModel::Nil });
    let o = with(o, "load1"@, if held { raw_doc(s.load1) } else { JsonModel::Nil });
    let o = with(o, "mem_used_pct"@, if held { small_doc(s.mem_used_pct) } else { JsonModel::Nil });
    let o = with(o, "uptime_s"@, large_doc(uptime));
    JsonModel::Object(with(o, "mem_total_kb"@, large_doc(mem_total)))
}

/// What a dashboard shows without asking for history.
pub fn now(st: &Store, uptime: Option<u64>, mem_total: Option<u64>) -> (r: Json)
    ensures
        r@ == now_doc(st@, uptime, mem_total),
{
    let mut o: Vec<Member> = Vec::new();
    assert(members(o@) =~= seq![]);
    match st.latest() {
        Some(s) => {
            put(&mut o, "at", Json::Number(s.at));
            put(&mut o, "series", series_json(&st.series));
            put(&mut o, "values", values_json(&s.v));
            put(&mut o, "cpu", small_json(s.cpu));
            put(&mut o, "load1", raw_json(&s.load1));
            put(&mut o, "mem_used_pct", small_json(s.mem_used_pct));
        },
        None => {
            put(&mut o, "at", Json::Nil);
            put(&mut o, "series", series_json(&st.series));
            put(&mut o, "values", Json::Nil);
            put(&mut o, "cpu", Json::Nil);
            put(&mut o, "load1", Json::Nil);
            put(&mut o, "mem_used_pct", Json::Nil);
        },
    }
    put(&mut o, "uptime_s", large_json(uptime));
    put(&mut o, "mem_total_kb", large_json(mem_total));
    object(o)
}

/// The instant a window of seconds starts at; zero seconds mean everything.
pub open spec fn window_start(seconds: nat, clock: nat) -> nat {
    if seconds == 0 || clock < seconds {
        0
    } else {
        (clock - seconds) as nat
    }
}

pub open spec fn history_doc(st: StoreModel, period: nat, seconds: nat, clock: nat) -> JsonModel {
    let o = with(seq![], "period_s"@, JsonModel::Number(period));
    let o = with(o, "held"@, JsonModel::Number(st.ring.len()));
    let o = with(o, "capacity"@, JsonModel::Number(st.cap));
    let o = with(o, "series"@, series_doc(st.series));
    JsonModel::Object(
        with(o, "samples"@, samples_doc(from_instant(st.ring, window_start(seconds, clock)))),
    )
}

/// History. The series are sent once and the samples are positional against them.
pub fn history(st: &Store, period: u64, seconds: u64, clock: u64) -> (r: Json)
    ensures
        r@ == history_doc(st@, period as nat, seconds as nat, clock as nat),
{
    let start: u64 = if seconds == 0 || clock < seconds {
        0
    } else {
        clock - seconds
    };
    let mut o: Vec<Member> = Vec::new();
    assert(members(o@) =~= seq![]);
    put(&mut o, "period_s", Json::Number(period));
    put(&mut o, "held", Json::Number(st.len() as u64));
    put(&mut o, "capacity", Json::Number(st.capacity() as u64));
    put(&mut o, "series", series_json(&st.series));
    let kept = st.since(start);
    put(&mut o, "samples", samples_json(&kept));
    object(o)
}

/// A number out of the environment, or the default when it is absent or no number.
pub open spec fn number_or(v: Option<Seq<char>>, default: nat) -> nat {
    match v {
        Some(t) => match parse_unsigned(t, 10, u64::MAX as nat) {
            Some(n) => n,
            None => default,
        },
        None => default,
    }
}

pub fn env_num(v: Option<&str>, default: u64) -> (r: u64)
    ensures
        r == number_or(opt_str(v), default as nat),
{
    match v {
        Some(t) => {
            let chars = to_chars(t);
            match parse_number(chars.as_slice(), 10, u64::MAX) {
                Some(n) => n,
                None => default,
            }
        },
        None => default,
    }
}

} // verus!
