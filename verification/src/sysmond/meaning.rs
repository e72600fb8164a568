//! What the numbers mean to whoever watches them.
use crate::iod::api::field;
use crate::json::{lemma_member, member, with, JsonModel};
use crate::num::{dec, dec_signed};
use crate::sysmond::history::{
    from_instant, history_doc, large_doc, now_doc, one_series_doc, raw_doc, room, sample_doc, samples_doc, series_doc,
    small_doc, values_doc, window_start, SampleModel, SeriesModel, StoreModel,
};
use crate::sysmond::sensors::{
    busy, flattened, idle_of, label_or, mem_of, meminfo_value, reading_on, readings_on, slug_of, told_apart,
    whole_degrees, ChannelModel, ChipModel, Kind, ReadingModel, SensorsModel,
};
use crate::text::{lines, trim};
use vstd::prelude::*;
use vstd::string::*;

verus! {

/// A member that was put is there, and the others are what they were.
proof fn lemma_members()
    ensures
        forall|o: Seq<(Seq<char>, JsonModel)>, k: Seq<char>, v: JsonModel, q: Seq<char>|
            #[trigger] member(with(o, k, v), q) == (if q == k {
                Some(v)
            } else {
                member(o, q)
            }),
{
    assert forall|o: Seq<(Seq<char>, JsonModel)>, k: Seq<char>, v: JsonModel, q: Seq<char>|
        #[trigger] member(with(o, k, v), q) == (if q == k {
            Some(v)
        } else {
            member(o, q)
        }) by {
        lemma_member(o, k, v, q);
    }
}

// --------------------------------------------------------------------------- sensors

/// The kernel tells temperatures in thousandths of a degree; what is shown is whole
/// degrees, never further from zero than the reading and less than a degree off.
pub proof fn law_degrees_are_thousandths(v: int)
    ensures
        -1000 < v - 1000 * whole_degrees(v) < 1000,
        v >= 0 ==> 0 <= 1000 * whole_degrees(v) <= v,
        v <= 0 ==> v <= 1000 * whole_degrees(v) <= 0,
        whole_degrees(1000 * v) == v,
{
    assert((1000 * v) / 1000 == v);
    assert((1000 * (-v)) / 1000 == -v);
}

/// A reading is the number in its own kind's file: degrees for a temperature, and the
/// number as it stands for a fan or a duty. Without the file there is no reading. It is
/// known by its label where the kernel gives one and by its kind and number else.
pub proof fn law_a_reading_is_its_own_file(chip: Seq<char>, c: ChannelModel, n: nat)
    ensures
        reading_on(chip, c, n, Kind::Temp) is Some <==> c.temp is Some && crate::num::parse_signed(trim(c.temp->0)) is Some,
        reading_on(chip, c, n, Kind::Temp) matches Some(r) ==> r.chip == chip && r.value == whole_degrees(
            crate::num::parse_signed(trim(c.temp->0))->0,
        ) && r.label == label_or(c.temp_label, "temp"@ + dec(n)) && r.slug == slug_of(r.label),
        reading_on(chip, c, n, Kind::Fan) is Some <==> c.fan is Some && crate::num::parse_signed(trim(c.fan->0)) is Some,
        reading_on(chip, c, n, Kind::Fan) matches Some(r) ==> r.chip == chip && crate::num::parse_signed(trim(c.fan->0))
            == Some(r.value) && r.label == label_or(c.fan_label, "fan"@ + dec(n)) && r.slug == slug_of(r.label),
        reading_on(chip, c, n, Kind::Pwm) is Some <==> c.pwm is Some && crate::num::parse_signed(trim(c.pwm->0)) is Some,
        reading_on(chip, c, n, Kind::Pwm) matches Some(r) ==> r.chip == chip && crate::num::parse_signed(trim(c.pwm->0))
            == Some(r.value) && r.label == "pwm"@ + dec(n),
{
}

/// A chip's readings come from its channels in turn, numbered from one.
pub proof fn law_channels_are_numbered_from_one(c: ChipModel, kind: Kind, n: nat, r: ReadingModel)
    requires
        readings_on(c, kind, n).contains(r),
    ensures
        exists|k: nat|
            1 <= k <= n && #[trigger] reading_on(trim(c.name), c.channels[k - 1], k, kind) == Some(r),
    decreases n,
{
    let v = readings_on(c, kind, n);
    let i = choose|i: int| 0 <= i < v.len() && v[i] == r;
    if n > 0 {
        let rest = readings_on(c, kind, (n - 1) as nat);
        if i < rest.len() {
            assert(rest[i] == r);
            law_channels_are_numbered_from_one(c, kind, (n - 1) as nat, r);
        } else {
            assert(reading_on(trim(c.name), c.channels[n - 1], n, kind) == Some(r));
        }
    }
}

/// Every reading becomes one series of its own kind, with its own value: the
/// temperatures first, then the fans, then the duties.
pub proof fn law_every_reading_is_a_series(s: SensorsModel, i: int)
    ensures
        flattened(s).len() == s.temps.len() + s.fans.len() + s.pwm.len(),
        0 <= i < s.temps.len() ==> flattened(s)[i] == (
            SeriesModel { slug: s.temps[i].slug, label: s.temps[i].label, chip: s.temps[i].chip, kind: "temp"@ },
            s.temps[i].value,
        ),
        0 <= i < s.fans.len() ==> flattened(s)[s.temps.len() + i] == (
            SeriesModel { slug: s.fans[i].slug, label: s.fans[i].label, chip: s.fans[i].chip, kind: "fan"@ },
            s.fans[i].value,
        ),
        0 <= i < s.pwm.len() ==> flattened(s)[s.temps.len() + s.fans.len() + i] == (
            SeriesModel { slug: s.pwm[i].slug, label: s.pwm[i].label, chip: s.pwm[i].chip, kind: "pwm"@ },
            s.pwm[i].value,
        ),
{
}

/// Telling two readings apart changes how they are known, not what they read.
pub proof fn law_telling_apart_changes_no_reading(v: Seq<ReadingModel>, r: ReadingModel)
    ensures
        told_apart(v, r).value == r.value,
        told_apart(v, r).label == r.label,
        told_apart(v, r).chip == r.chip,
{
}

// ------------------------------------------------------------------------- processor

/// The share of the time since the last look in which the processor had something to
/// do, in percent and rounded down: none when all of it was idle, all when none was.
/// Waiting for a disk is idle. Without an earlier look, or when the counters went
/// back, nothing is said.
pub proof fn law_busy_is_the_share_that_was_not_idle(pt: u64, pi: u64, total: nat, idle: nat, v: Seq<u64>)
    requires
        idle >= pi ==> idle - pi <= total - pt,
    ensures
        busy(None, total, idle) is None,
        busy(Some((pt, pi)), total, idle) is Some <==> total > pt && idle >= pi,
        busy(Some((pt, pi)), total, idle) matches Some(p) ==> p <= 100 && p * (total - pt) <= 100 * ((total - pt) - (idle
            - pi)) < (p + 1) * (total - pt),
        busy(Some((pt, pi)), total, idle) is Some && idle == pi ==> busy(Some((pt, pi)), total, idle) == Some(100nat),
        busy(Some((pt, pi)), total, idle) is Some && idle - pi == total - pt ==> busy(Some((pt, pi)), total, idle) == Some(
            0nat,
        ),
        v.len() == 4 ==> idle_of(v) == v[3],
        v.len() > 4 ==> idle_of(v) == v[3] + v[4],
{
    if total > pt && idle >= pi {
        let t = total - pt;
        let b = t - (idle - pi);
        let p = 100 * b / t;
        assert(p * t <= 100 * b < (p + 1) * t && p <= 100) by (nonlinear_arith)
            requires
                t > 0,
                0 <= b <= t,
                p == 100 * b / t,
        ;
        if idle == pi {
            assert(100 * t / t == 100) by (nonlinear_arith)
                requires
                    t > 0,
            ;
        }
        if b == 0 {
            assert(0int / t == 0) by (nonlinear_arith)
                requires
                    t > 0,
            ;
        }
    }
}

/// The memory is told as what there is and what of it is free, each from its own line.
pub proof fn law_memory_is_told_from_its_own_lines(meminfo: Seq<char>)
    ensures
        mem_of(meminfo) matches Some((total, free)) ==> meminfo_value(lines(meminfo), "MemTotal:"@) == Some(total)
            && meminfo_value(lines(meminfo), "MemAvailable:"@) == Some(free),
        mem_of(meminfo) is None <==> meminfo_value(lines(meminfo), "MemTotal:"@) is None || meminfo_value(
            lines(meminfo),
            "MemAvailable:"@,
        ) is None,
{
}

// --------------------------------------------------------------------------- history

/// What is asked for from an instant on is every sample from then on and no older
/// one, in the order they were taken.
pub proof fn law_a_window_holds_what_is_in_it(ring: Seq<SampleModel>, since: nat, s: SampleModel)
    ensures
        from_instant(ring, since).contains(s) <==> ring.contains(s) && s.at >= since,
        forall|i: int| 0 <= i < from_instant(ring, since).len() ==> (#[trigger] from_instant(ring, since)[i]).at >= since,
        ring.len() > 0 && ring.last().at >= since ==> from_instant(ring, since).len() > 0 && from_instant(
            ring,
            since,
        ).last() == ring.last(),
    decreases ring.len(),
{
    if ring.len() > 0 {
        let init = ring.drop_last();
        let before = from_instant(init, since);
        law_a_window_holds_what_is_in_it(init, since, s);
        let now = from_instant(ring, since);
        if ring.contains(s) {
            let i = choose|i: int| 0 <= i < ring.len() && ring[i] == s;
            if i < init.len() {
                assert(init[i] == s);
            }
        }
        if init.contains(s) {
            let i = choose|i: int| 0 <= i < init.len() && init[i] == s;
            assert(ring[i] == s);
        }
        if ring.last().at >= since {
            if before.contains(s) {
                let k = choose|k: int| 0 <= k < before.len() && before[k] == s;
                assert(now[k] == s);
            }
            if s == ring.last() {
                assert(now[now.len() - 1] == s);
                assert(ring[ring.len() - 1] == s);
            }
            if now.contains(s) {
                let k = choose|k: int| 0 <= k < now.len() && now[k] == s;
                if k < before.len() {
                    assert(before[k] == s);
                } else {
                    assert(ring[ring.len() - 1] == s);
                }
            }
        }
    }
}

/// A window of so many seconds begins so many seconds ago; no window is all of it.
/// The store has room for the window at its period, and for two samples at least.
pub proof fn law_a_window_is_its_seconds(seconds: nat, clock: nat, window: nat, period: nat)
    ensures
        0 < seconds <= clock ==> window_start(seconds, clock) + seconds == clock,
        seconds == 0 || clock < seconds ==> window_start(seconds, clock) == 0,
        room(window, period) >= 2,
        period > 0 && window >= 2 * period ==> room(window, period) * period <= window < (room(window, period) + 1)
            * period,
{
    if period > 0 {
        let q = window / period;
        assert(q * period <= window < (q + 1) * period) by (nonlinear_arith)
            requires
                period > 0,
                q == window / period,
        ;
        if window >= 2 * period {
            assert(q >= 2) by (nonlinear_arith)
                requires
                    period > 0,
                    window >= 2 * period,
                    q == window / period,
            ;
        }
    }
}

/// A sample is told with its own instant and its own values, in the order of the
/// series; a series with its own names.
pub proof fn law_a_sample_is_told_by_its_values(s: SampleModel, r: SeriesModel, i: int)
    requires
        0 <= i < s.v.len(),
    ensures
        field(sample_doc(s), "at"@) == Some(JsonModel::Number(s.at)),
        field(sample_doc(s), "v"@) matches Some(JsonModel::List(l)) && l.len() == s.v.len() && l[i] == (match s.v[i] {
            Some(n) => JsonModel::Raw(dec_signed(n as int)),
            None => JsonModel::Nil,
        }),
        field(sample_doc(s), "cpu"@) == Some(small_doc(s.cpu)),
        field(sample_doc(s), "load1"@) == Some(raw_doc(s.load1)),
        field(sample_doc(s), "mem_used_pct"@) == Some(small_doc(s.mem_used_pct)),
        field(one_series_doc(r), "slug"@) == Some(JsonModel::Text(r.slug)),
        field(one_series_doc(r), "label"@) == Some(JsonModel::Text(r.label)),
        field(one_series_doc(r), "chip"@) == Some(JsonModel::Text(r.chip)),
        field(one_series_doc(r), "kind"@) == Some(JsonModel::Text(r.kind)),
{
    lemma_members();
    reveal_strlit("at");
    reveal_strlit("v");
    reveal_strlit("cpu");
    reveal_strlit("load1");
    reveal_strlit("mem_used_pct");
    reveal_strlit("slug");
    reveal_strlit("label");
    reveal_strlit("chip");
    reveal_strlit("kind");
    assert("at"@.len() == 2 && "v"@.len() == 1 && "cpu"@.len() == 3 && "load1"@.len() == 5 && "mem_used_pct"@.len()
        == 12);
    assert("slug"@.len() == 4 && "label"@.len() == 5 && "chip"@.len() == 4 && "kind"@.len() == 4);
    assert("slug"@[0] == 's' && "chip"@[0] == 'c' && "kind"@[0] == 'k');
}

/// What is told of now is the newest sample, and what is told of the past is the
/// window that was asked for, each beside the series its values belong to.
pub proof fn law_now_is_the_newest_sample(
    st: StoreModel,
    uptime: Option<u64>,
    mem_total: Option<u64>,
    period: nat,
    seconds: nat,
    clock: nat,
)
    requires
        st.ring.len() > 0,
    ensures
        ({
            let now = now_doc(st, uptime, mem_total);
            let past = history_doc(st, period, seconds, clock);
            &&& field(now, "at"@) == Some(JsonModel::Number(st.ring.last().at))
            &&& field(now, "series"@) == Some(series_doc(st.series))
            &&& field(now, "values"@) == Some(values_doc(st.ring.last().v))
            &&& field(now, "cpu"@) == Some(small_doc(st.ring.last().cpu))
            &&& field(now, "load1"@) == Some(raw_doc(st.ring.last().load1))
            &&& field(now, "mem_used_pct"@) == Some(small_doc(st.ring.last().mem_used_pct))
            &&& field(now, "uptime_s"@) == Some(large_doc(uptime))
            &&& field(now, "mem_total_kb"@) == Some(large_doc(mem_total))
            &&& field(past, "period_s"@) == Some(JsonModel::Number(period))
            &&& field(past, "held"@) == Some(JsonModel::Number(st.ring.len()))
            &&& field(past, "capacity"@) == Some(JsonModel::Number(st.cap))
            &&& field(past, "series"@) == Some(series_doc(st.series))
            &&& field(past, "samples"@) == Some(
                samples_doc(from_instant(st.ring, window_start(seconds, clock))),
            )
        }),
{
    lemma_members();
    reveal_strlit("at");
    reveal_strlit("series");
    reveal_strlit("values");
    reveal_strlit("cpu");
    reveal_strlit("load1");
    reveal_strlit("mem_used_pct");
    reveal_strlit("uptime_s");
    reveal_strlit("mem_total_kb");
    reveal_strlit("period_s");
    reveal_strlit("held");
    reveal_strlit("capacity");
    reveal_strlit("samples");
    assert("at"@.len() == 2 && "series"@.len() == 6 && "values"@.len() == 6 && "cpu"@.len() == 3 && "load1"@.len() == 5
        && "mem_used_pct"@.len() == 12 && "uptime_s"@.len() == 8 && "mem_total_kb"@.len() == 12 && "period_s"@.len()
        == 8 && "held"@.len() == 4 && "capacity"@.len() == 8 && "samples"@.len() == 7);
    assert("series"@[0] == 's' && "values"@[0] == 'v');
    assert("mem_used_pct"@[4] == 'u' && "mem_total_kb"@[4] == 't');
    assert("period_s"@[0] == 'p' && "capacity"@[0] == 'c');
}

} // verus!
