//! Front-panel LEDs, through the kernel's LED class.
//!
//! Names follow the LED class convention `<device>:<colour>:<function>`. The
//! topic slug drops the device and keeps the colour only when it is needed to
//! tell two LEDs apart.
use crate::num::{parse_number, parse_unsigned};
use crate::text::{
    cat2, cat3, debug_string, debug_text, from_chars, opt, same, slices, split, split_of, to_chars, trim, trimmed,
    words, words_of, Class,
};
use crate::json::{members, object, put, text, with, Json, JsonModel, Member};
use crate::textmap::{before, lemma_lt_irreflexive, lemma_lt_total, lemma_lt_transitive, text_lt};
use vstd::prelude::*;
use vstd::slice::slice_subrange;
use vstd::string::*;

verus! {

#[derive(Debug)]
pub struct Led {
    /// Topic slug.
    pub slug: String,
    /// The kernel's name, for anyone going straight to sysfs.
    pub name: String,
    pub colour: String,
    pub function: String,
    pub max: u32,
    /// The kernel trigger driving it. `none` means software control.
    pub trigger: String,
}

pub ghost struct LedModel {
    pub slug: Seq<char>,
    pub name: Seq<char>,
    pub colour: Seq<char>,
    pub function: Seq<char>,
    pub max: nat,
    pub trigger: Seq<char>,
}

impl View for Led {
    type V = LedModel;

    open spec fn view(&self) -> LedModel {
        LedModel {
            slug: self.slug@,
            name: self.name@,
            colour: self.colour@,
            function: self.function@,
            max: self.max as nat,
            trigger: self.trigger@,
        }
    }
}

/// The models of a list of LEDs.
pub open spec fn leds(v: Seq<Led>) -> Seq<LedModel> {
    v.map_values(|l: Led| l@)
}

/// An LED as the class directory shows it: its name, and what its
/// `max_brightness` and `trigger` files hold.
#[derive(Debug)]
pub struct Entry {
    pub name: String,
    pub max: Option<String>,
    pub trigger: Option<String>,
}

pub ghost struct EntryModel {
    pub name: Seq<char>,
    pub max: Option<Seq<char>>,
    pub trigger: Option<Seq<char>>,
}

impl View for Entry {
    type V = EntryModel;

    open spec fn view(&self) -> EntryModel {
        EntryModel { name: self.name@, max: opt(self.max), trigger: opt(self.trigger) }
    }
}

pub open spec fn entries(v: Seq<Entry>) -> Seq<EntryModel> {
    v.map_values(|e: Entry| e@)
}

/// What stands in brackets, if all of the word does.
pub open spec fn bracketed(w: Seq<char>) -> Option<Seq<char>> {
    if w.len() >= 2 && w[0] == '[' && w.last() == ']' {
        Some(w.subrange(1, w.len() - 1))
    } else {
        None
    }
}

pub open spec fn first_bracketed(ws: Seq<Seq<char>>) -> Seq<char>
    decreases ws.len(),
{
    if ws.len() == 0 {
        "none"@
    } else {
        match bracketed(ws[0]) {
            Some(t) => t,
            None => first_bracketed(ws.skip(1)),
        }
    }
}

/// The active trigger is the one in brackets: `none timer [heartbeat]`.
pub fn active_trigger(s: &str) -> (r: String)
    ensures
        r@ == first_bracketed(words(s@)),
{
    let chars = to_chars(s);
    let ws = words_of(chars.as_slice());
    let ghost all = slices(ws@);
    let mut i: usize = 0;
    assert(all.skip(0) =~= all);
    while i < ws.len()
        invariant
            i <= ws@.len(),
            all == slices(ws@),
            all == words(s@),
            first_bracketed(all) == first_bracketed(all.skip(i as int)),
        decreases ws@.len() - i,
    {
        assert(all.skip(i as int)[0] == ws@[i as int]@);
        let w = ws[i];
        if w.len() >= 2 && w[0] == '[' && w[w.len() - 1] == ']' {
            return from_chars(slice_subrange(w, 1, w.len() - 1));
        }
        assert(all.skip(i as int).skip(1) =~= all.skip(i + 1));
        i += 1;
    }
    String::from_str("none")
}

/// The colour and function a kernel name carries. Anything that does not follow
/// the convention is all function.
pub open spec fn colour_function(name: Seq<char>) -> (Seq<char>, Seq<char>) {
    let p = split(name, Class::One(':'));
    if p.len() == 3 {
        (p[1], p[2])
    } else {
        (seq![], name)
    }
}

fn split_name(name: &str) -> (r: (String, String))
    ensures
        (r.0@, r.1@) == colour_function(name@),
{
    let chars = to_chars(name);
    let p = split_of(chars.as_slice(), &Class::One(':'));
    assert(slices(p@).len() == p@.len());
    if p.len() == 3 {
        assert(slices(p@)[1] == p@[1]@ && slices(p@)[2] == p@[2]@);
        (from_chars(p[1]), from_chars(p[2]))
    } else {
        let e = String::new();
        assert(e@ =~= seq![]);
        (e, String::from_str(name))
    }
}

/// How many names carry a function.
pub open spec fn uses(v: Seq<EntryModel>, function: Seq<char>) -> nat
    decreases v.len(),
{
    if v.len() == 0 {
        0
    } else {
        uses(v.drop_last(), function) + if colour_function(v.last().name).1 == function {
            1nat
        } else {
            0nat
        }
    }
}

pub open spec fn led_of(v: Seq<EntryModel>, e: EntryModel) -> LedModel {
    let (colour, function) = colour_function(e.name);
    LedModel {
        slug: if uses(v, function) > 1 && colour.len() > 0 {
            function + "-"@ + colour
        } else {
            function
        },
        name: e.name,
        colour,
        function,
        max: match e.max {
            Some(t) => match parse_unsigned(trim(t), 10, 0xffff_ffff) {
                Some(n) => n,
                None => 1,
            },
            None => 1,
        },
        trigger: match e.trigger {
            Some(t) => first_bracketed(words(trim(t))),
            None => "none"@,
        },
    }
}

/// An LED in its place by slug, after those with the same slug.
pub open spec fn inserted(v: Seq<LedModel>, l: LedModel) -> Seq<LedModel>
    decreases v.len(),
{
    if v.len() == 0 {
        seq![l]
    } else if text_lt(l.slug, v.last().slug) {
        inserted(v.drop_last(), l).push(v.last())
    } else {
        v.push(l)
    }
}

/// The LEDs of some of a board's entries, by slug.
pub open spec fn listed(all: Seq<EntryModel>, v: Seq<EntryModel>) -> Seq<LedModel>
    decreases v.len(),
{
    if v.len() == 0 {
        seq![]
    } else {
        inserted(listed(all, v.drop_last()), led_of(all, v.last()))
    }
}

/// No LED comes after one with a later slug.
pub open spec fn in_order(v: Seq<LedModel>) -> bool {
    forall|i: int, j: int| 0 <= i < j < v.len() ==> !text_lt((#[trigger] v[j]).slug, (#[trigger] v[i]).slug)
}

proof fn lemma_inserted_in_order(v: Seq<LedModel>, l: LedModel)
    requires
        in_order(v),
    ensures
        in_order(inserted(v, l)),
        inserted(v, l).len() == v.len() + 1,
        forall|b: LedModel| #[trigger] inserted(v, l).contains(b) ==> b == l || v.contains(b),
    decreases v.len(),
{
    let r = inserted(v, l);
    if v.len() == 0 {
        assert(r.len() == 1);
    } else if text_lt(l.slug, v.last().slug) {
        let w = v.drop_last();
        assert(in_order(w)) by {
            assert forall|i: int, j: int| 0 <= i < j < w.len() implies !text_lt(
                (#[trigger] w[j]).slug,
                (#[trigger] w[i]).slug,
            ) by {
                assert(w[j] == v[j] && w[i] == v[i]);
            }
        }
        lemma_inserted_in_order(w, l);
        let p = inserted(w, l);
        assert forall|i: int, j: int| 0 <= i < j < r.len() implies !text_lt(
            (#[trigger] r[j]).slug,
            (#[trigger] r[i]).slug,
        ) by {
            if j < p.len() {
                assert(r[j] == p[j] && r[i] == p[i]);
            } else {
                assert(r[j] == v.last() && r[i] == p[i]);
                assert(p.contains(p[i]));
                if p[i] == l {
                    if text_lt(v.last().slug, l.slug) {
                        lemma_lt_transitive(v.last().slug, l.slug, v.last().slug);
                        lemma_lt_irreflexive(v.last().slug);
                    }
                } else {
                    let k = choose|k: int| 0 <= k < w.len() && w[k] == p[i];
                    assert(v[k] == p[i]);
                    assert(v[v.len() - 1] == v.last());
                }
            }
        }
        assert forall|b: LedModel| #[trigger] r.contains(b) implies b == l || v.contains(b) by {
            let k = choose|k: int| 0 <= k < r.len() && r[k] == b;
            if k < p.len() {
                assert(p.contains(p[k]));
                if b != l {
                    let m = choose|m: int| 0 <= m < w.len() && w[m] == b;
                    assert(v[m] == b);
                }
            } else {
                assert(v[v.len() - 1] == b);
            }
        }
    } else {
        assert forall|i: int, j: int| 0 <= i < j < r.len() implies !text_lt(
            (#[trigger] r[j]).slug,
            (#[trigger] r[i]).slug,
        ) by {
            if j == v.len() {
                if i < v.len() - 1 {
                    assert(!text_lt(v[v.len() - 1].slug, v[i].slug));
                    if text_lt(l.slug, v[i].slug) {
                        lemma_lt_total(v.last().slug, v[i].slug);
                        if v[i].slug != v.last().slug {
                            lemma_lt_transitive(l.slug, v[i].slug, v.last().slug);
                        }
                    }
                }
            } else {
                assert(r[j] == v[j] && r[i] == v[i]);
            }
        }
        assert forall|b: LedModel| #[trigger] r.contains(b) implies b == l || v.contains(b) by {
            let k = choose|k: int| 0 <= k < r.len() && r[k] == b;
            if k < v.len() {
                assert(v[k] == b);
            }
        }
    }
}

/// The list is in slug order and holds one LED for each entry.
pub proof fn law_leds_are_listed_by_slug(all: Seq<EntryModel>, v: Seq<EntryModel>)
    ensures
        in_order(listed(all, v)),
        listed(all, v).len() == v.len(),
    decreases v.len(),
{
    if v.len() > 0 {
        law_leds_are_listed_by_slug(all, v.drop_last());
        lemma_inserted_in_order(listed(all, v.drop_last()), led_of(all, v.last()));
    }
}

proof fn lemma_inserted(v: Seq<LedModel>, l: LedModel, i: int)
    requires
        0 <= i <= v.len(),
        forall|k: int| i <= k < v.len() ==> text_lt(l.slug, (#[trigger] v[k]).slug),
        i > 0 ==> !text_lt(l.slug, v[i - 1].slug),
    ensures
        inserted(v, l) == v.insert(i, l),
    decreases v.len(),
{
    if i == v.len() {
        assert(v.insert(i, l) =~= v.push(l));
    } else {
        let w = v.drop_last();
        assert forall|k: int| i <= k < w.len() implies text_lt(l.slug, (#[trigger] w[k]).slug) by {
            assert(w[k] == v[k]);
        }
        lemma_inserted(w, l, i);
        assert(v.insert(i, l) =~= w.insert(i, l).push(v.last()));
    }
}

fn insert_sorted(v: &mut Vec<Led>, l: Led)
    ensures
        leds(final(v)@) == inserted(leds(old(v)@), l@),
{
    let ghost all = leds(v@);
    let mut i: usize = v.len();
    while i > 0 && before(l.slug.as_str(), v[i - 1].slug.as_str())
        invariant
            i <= v@.len(),
            all == leds(v@),
            forall|k: int| i <= k < all.len() ==> text_lt(l.slug@, (#[trigger] all[k]).slug),
        decreases i,
    {
        assert(all[i - 1].slug == v@[i - 1].slug@);
        i -= 1;
    }
    proof {
        if i > 0 {
            assert(all[i - 1].slug == v@[i - 1].slug@);
        }
        lemma_inserted(all, l@, i as int);
    }
    let ghost m = l@;
    v.insert(i, l);
    assert(leds(v@) =~= all.insert(i as int, m));
}

fn count_uses(v: &Vec<Entry>, function: &str) -> (r: usize)
    ensures
        r == uses(entries(v@), function@),
{
    let ghost all = entries(v@);
    let mut n: usize = 0;
    let mut i: usize = 0;
    while i < v.len()
        invariant
            i <= v@.len(),
            n <= i,
            all == entries(v@),
            n == uses(all.take(i as int), function@),
        decreases v@.len() - i,
    {
        assert(all.take(i + 1).drop_last() =~= all.take(i as int));
        assert(all.take(i + 1).last().name == v@[i as int].name@);
        let (_, f) = split_name(v[i].name.as_str());
        if same(f.as_str(), function) {
            n += 1;
        }
        i += 1;
    }
    assert(all.take(all.len() as int) =~= all);
    n
}

/// Every LED this board exposes.
pub fn list(found: &Vec<Entry>) -> (r: Vec<Led>)
    ensures
        leds(r@) == listed(entries(found@), entries(found@)),
{
    let ghost all = entries(found@);
    let mut out: Vec<Led> = Vec::new();
    let mut i: usize = 0;
    assert(leds(out@) =~= listed(all, all.take(0)));
    while i < found.len()
        invariant
            i <= found@.len(),
            all == entries(found@),
            leds(out@) == listed(all, all.take(i as int)),
        decreases found@.len() - i,
    {
        assert(all.take(i + 1).drop_last() =~= all.take(i as int));
        assert(all.take(i + 1).last() == found@[i as int]@);
        let e = &found[i];
        let (colour, function) = split_name(e.name.as_str());
        let slug = if count_uses(found, function.as_str()) > 1 && to_chars(colour.as_str()).len() > 0 {
            cat3(function.as_str(), "-", colour.as_str())
        } else {
            function.clone()
        };
        let max: u32 = match &e.max {
            Some(t) => {
                let c = to_chars(t.as_str());
                match parse_number(trimmed(c.as_slice()), 10, 0xffff_ffff) {
                    Some(n) => n as u32,
                    None => 1,
                }
            },
            None => 1,
        };
        let trigger = match &e.trigger {
            Some(t) => {
                let c = to_chars(t.as_str());
                active_trigger(from_chars(trimmed(c.as_slice())).as_str())
            },
            None => String::from_str("none"),
        };
        let l = Led { slug, name: e.name.clone(), colour, function, max, trigger };
        assert(l@ == led_of(all, found@[i as int]@));
        insert_sorted(&mut out, l);
        i += 1;
    }
    assert(all.take(all.len() as int) =~= all);
    out
}

/// The first LED with a slug.
pub open spec fn with_slug(v: Seq<LedModel>, slug: Seq<char>) -> Option<LedModel>
    decreases v.len(),
{
    if v.len() == 0 {
        None
    } else if v[0].slug == slug {
        Some(v[0])
    } else {
        with_slug(v.skip(1), slug)
    }
}

pub fn by_slug<'a>(v: &'a Vec<Led>, slug: &str) -> (r: Result<&'a Led, String>)
    ensures
        match with_slug(leds(v@), slug@) {
            Some(l) => r is Ok && r->Ok_0@ == l,
            None => r is Err && r->Err_0@ == "no LED "@ + debug_text(slug@),
        },
{
    let ghost all = leds(v@);
    let mut i: usize = 0;
    assert(all.skip(0) =~= all);
    while i < v.len()
        invariant
            i <= v@.len(),
            all == leds(v@),
            with_slug(all, slug@) == with_slug(all.skip(i as int), slug@),
        decreases v@.len() - i,
    {
        assert(all.skip(i as int)[0] == v@[i as int]@);
        if same(v[i].slug.as_str(), slug) {
            return Ok(&v[i]);
        }
        assert(all.skip(i as int).skip(1) =~= all.skip(i + 1));
        i += 1;
    }
    Err(cat2("no LED ", debug_string(slug).as_str()))
}

/// The brightness a `brightness` file holds.
pub fn get(brightness: Option<&str>) -> (r: Result<u32, String>)
    ensures
        match crate::flasher::board::opt_str(brightness) {
            Some(t) => match parse_unsigned(trim(t), 10, 0xffff_ffff) {
                Some(n) => r is Ok && r->Ok_0 == n,
                None => r is Err && r->Err_0@ == "cannot read brightness"@,
            },
            None => r is Err && r->Err_0@ == "cannot read brightness"@,
        },
{
    if let Some(t) = brightness {
        let c = to_chars(t);
        if let Some(n) = parse_number(trimmed(c.as_slice()), 10, 0xffff_ffff) {
            return Ok(n as u32);
        }
    }
    Err(String::from_str("cannot read brightness"))
}

/// What to write to an LED.
#[derive(Debug)]
pub struct Write {
    pub name: String,
    /// An LED under a kernel trigger ignores writes: drop the trigger first.
    pub drop_trigger: bool,
    pub brightness: u32,
}

pub open spec fn brightness_of(l: LedModel, level: Option<u32>) -> nat {
    let want = match level {
        Some(n) => n as nat,
        None => l.max,
    };
    if want > l.max {
        l.max
    } else {
        want
    }
}

/// No level drives an LED past its maximum, zero turns it off, and none at all
/// means full.
pub proof fn law_brightness_stays_in_range(l: LedModel, level: Option<u32>)
    ensures
        brightness_of(l, level) <= l.max,
        brightness_of(l, Some(0u32)) == 0,
        brightness_of(l, None) == l.max,
{
}

/// Set brightness. No level means full, which is what a plain on/off caller
/// wants without having to know the maximum.
pub fn set(v: &Vec<Led>, slug: &str, level: Option<u32>) -> (r: Result<Write, String>)
    ensures
        match with_slug(leds(v@), slug@) {
            Some(l) => r is Ok && r->Ok_0.name@ == l.name && r->Ok_0.drop_trigger == (l.trigger
                != "none"@) && r->Ok_0.brightness == brightness_of(l, level),
            None => r is Err && r->Err_0@ == "no LED "@ + debug_text(slug@),
        },
{
    match by_slug(v, slug) {
        Ok(l) => {
            let want: u32 = match level {
                Some(n) => n,
                None => l.max,
            };
            Ok(
                Write {
                    name: l.name.clone(),
                    drop_trigger: !same(l.trigger.as_str(), "none"),
                    brightness: if want > l.max { l.max } else { want },
                },
            )
        },
        Err(e) => Err(e),
    }
}

/// An LED as clients are shown it.
pub open spec fn shown(l: LedModel) -> JsonModel {
    let o = with(seq![], "slug"@, JsonModel::Text(l.slug));
    let o = with(o, "name"@, JsonModel::Text(l.name));
    let o = with(o, "colour"@, JsonModel::Text(l.colour));
    let o = with(o, "function"@, JsonModel::Text(l.function));
    let o = with(o, "max"@, JsonModel::Number(l.max));
    JsonModel::Object(with(o, "trigger"@, JsonModel::Text(l.trigger)))
}

pub fn show(l: &Led) -> (r: Json)
    ensures
        r@ == shown(l@),
{
    let mut o: Vec<Member> = Vec::new();
    assert(members(o@) =~= seq![]);
    put(&mut o, "slug", text(l.slug.as_str()));
    put(&mut o, "name", text(l.name.as_str()));
    put(&mut o, "colour", text(l.colour.as_str()));
    put(&mut o, "function", text(l.function.as_str()));
    put(&mut o, "max", Json::Number(l.max as u64));
    put(&mut o, "trigger", text(l.trigger.as_str()));
    object(o)
}

} // verus!
