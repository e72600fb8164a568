//! Infrared: between Pronto, which is what an installer pastes, and the
//! microsecond timings the kernel speaks.
//!
//! Pronto counts in carrier periods, not microseconds. Unscaled, a code is
//! well-formed and radiates something no target recognises.
use crate::iod::fault::{bad, Fault, FaultModel};
use crate::iod::board::Io;
use crate::json::{members, object, put, text, with, Json, JsonModel, Member};
use crate::num::{
    dec, dec_string, digit_char, digit_of, digit_val, digits_value, hex_fixed, parse_number, parse_unsigned,
};
use crate::text::{
    cat2, cat3, cat5, debug_string, debug_text, eq_fold_str, lemma_one_word, lemma_words_push, lower, slices, to_chars,
    to_upper_char, upper, upper_char, white, words, words_of,
};
use vstd::prelude::*;
use vstd::string::*;

verus! {

/// The Pronto clock. A code's second word is this over the carrier frequency.
pub const PRONTO_HZ: u32 = 4_145_146;

pub const RECEIVER_NAME: &'static str = "openHC IR front receiver";

/// The carrier assumed when the receiver measured none.
pub const DEFAULT_CARRIER_HZ: u32 = 38_000;

// ---------------------------------------------------------------------- emitters

/// Which emitter to fire. The front blaster is not a seventh jack: it has no
/// socket on the back.
#[derive(Debug, Clone, Copy, PartialEq, Eq, Structural)]
pub enum IrTarget {
    /// Rear jack, as labelled.
    Jack(u8),
    Front,
}

impl IrTarget {
    pub open spec fn label_spec(self) -> Seq<char> {
        match self {
            IrTarget::Front => "front"@,
            IrTarget::Jack(n) => dec(n as nat),
        }
    }

    /// How this target is written on the wire and in a topic.
    pub fn label(self) -> (r: String)
        ensures
            r@ == self.label_spec(),
    {
        match self {
            IrTarget::Front => String::from_str("front"),
            IrTarget::Jack(n) => dec_string(n as u64),
        }
    }

    /// Which of the board's emitters this is, counted from zero with the blaster
    /// last.
    pub open spec fn index_spec(self, ir_out: nat, ir_blaster: nat) -> Result<nat, FaultModel> {
        match self {
            IrTarget::Front => if ir_blaster == 0 {
                Err(FaultModel::NoSuch("this board has no front blaster"@))
            } else {
                Ok(ir_out)
            },
            IrTarget::Jack(n) => if n == 0 || n > ir_out {
                Err(FaultModel::Bad("no IR jack "@ + dec(n as nat) + " (1.."@ + dec(ir_out) + ")"@))
            } else {
                Ok((n - 1) as nat)
            },
        }
    }

    /// Validate against a board's geometry.
    pub fn index(self, io: &Io) -> (r: Result<u8, Fault>)
        ensures
            match self.index_spec(io@.ir_out, io@.ir_blaster) {
                Ok(n) => r is Ok && r->Ok_0 == n,
                Err(f) => r is Err && r->Err_0@ == f,
            },
    {
        match self {
            IrTarget::Front => {
                if io.ir_blaster == 0 {
                    return Err(Fault::NoSuch(String::from_str("this board has no front blaster")));
                }
                Ok(io.ir_out)
            },
            IrTarget::Jack(n) => {
                if n == 0 || n > io.ir_out {
                    return Err(
                        Fault::Bad(
                            cat5(
                                "no IR jack ",
                                dec_string(n as u64).as_str(),
                                " (1..",
                                dec_string(io.ir_out as u64).as_str(),
                                ")",
                            ),
                        ),
                    );
                }
                Ok(n - 1)
            },
        }
    }

    /// A target as a client writes it: `front` in any case, or a jack number.
    pub open spec fn read(s: Seq<char>) -> Option<IrTarget> {
        if lower(s) == lower("front"@) {
            Some(IrTarget::Front)
        } else {
            match parse_unsigned(s, 10, 255) {
                Some(n) => Some(IrTarget::Jack(n as u8)),
                None => None,
            }
        }
    }

    pub fn from_text(s: &str) -> (r: Result<IrTarget, String>)
        ensures
            match IrTarget::read(s@) {
                Some(t) => r is Ok && r->Ok_0 == t,
                None => r is Err && r->Err_0@ == "unknown IR target "@ + debug_text(s@)
                    + "; expected a jack number or \"front\""@,
            },
    {
        let chars = to_chars(s);
        if eq_fold_str(chars.as_slice(), "front") {
            return Ok(IrTarget::Front);
        }
        match parse_number(chars.as_slice(), 10, 255) {
            Some(n) => Ok(IrTarget::Jack(n as u8)),
            None => Err(
                cat3(
                    "unknown IR target ",
                    debug_string(s).as_str(),
                    "; expected a jack number or \"front\"",
                ),
            ),
        }
    }

    /// A target as a plain number.
    pub fn from_number(n: u64) -> (r: Result<IrTarget, String>)
        ensures
            n <= 255 ==> r is Ok && r->Ok_0 == IrTarget::Jack(n as u8),
            n > 255 ==> r is Err && r->Err_0@ == "jack out of range"@,
    {
        if n <= 255 {
            Ok(IrTarget::Jack(n as u8))
        } else {
            Err(String::from_str("jack out of range"))
        }
    }
}

pub open spec fn emitter_label(t: IrTarget) -> Seq<char> {
    match t {
        IrTarget::Front => "openHC IR front blaster"@,
        IrTarget::Jack(n) => "openHC IR out "@ + dec(n as nat),
    }
}

/// The name the kernel driver gives an emitter's node.
pub fn emitter_name(target: IrTarget) -> (r: String)
    ensures
        r@ == emitter_label(target),
{
    match target {
        IrTarget::Front => String::from_str("openHC IR front blaster"),
        IrTarget::Jack(n) => cat2("openHC IR out ", dec_string(n as u64).as_str()),
    }
}

// ------------------------------------------------------------------------- Pronto

/// Hexadecimal words of 16 bits, all of them or nothing.
pub open spec fn hex_words(ws: Seq<Seq<char>>) -> Option<Seq<u16>>
    decreases ws.len(),
{
    if ws.len() == 0 {
        Some(seq![])
    } else {
        match (hex_words(ws.drop_last()), parse_unsigned(ws.last(), 16, 0xffff)) {
            (Some(v), Some(n)) => Some(v.push(n as u16)),
            _ => None,
        }
    }
}

proof fn lemma_bad_word(ws: Seq<Seq<char>>, i: int)
    requires
        0 < i <= ws.len(),
        hex_words(ws.take(i)) is None,
    ensures
        hex_words(ws) is None,
    decreases ws.len() - i,
{
    if i < ws.len() {
        assert(ws.take(i + 1).drop_last() =~= ws.take(i));
        lemma_bad_word(ws, i + 1);
    } else {
        assert(ws.take(i) =~= ws);
    }
}

fn parse_words(ws: &Vec<&[char]>) -> (r: Option<Vec<u16>>)
    ensures
        match r {
            Some(v) => hex_words(slices(ws@)) == Some(v@),
            None => hex_words(slices(ws@)) is None,
        },
{
    let ghost all = slices(ws@);
    let mut out: Vec<u16> = Vec::new();
    let mut i: usize = 0;
    assert(hex_words(all.take(0)) == Some(out@));
    while i < ws.len()
        invariant
            i <= ws@.len(),
            all == slices(ws@),
            hex_words(all.take(i as int)) == Some(out@),
        decreases ws@.len() - i,
    {
        assert(all.take(i + 1).drop_last() =~= all.take(i as int));
        assert(all.take(i + 1).last() == ws@[i as int]@);
        match parse_number(ws[i], 16, 0xffff) {
            Some(n) => {
                out.push(n as u16);
            },
            None => {
                proof {
                    lemma_bad_word(all, i + 1);
                }
                return None;
            },
        }
        i += 1;
    }
    assert(all.take(all.len() as int) =~= all);
    Some(out)
}

/// One Pronto duration in microseconds at a carrier.
pub open spec fn micros(d: nat, hz: nat) -> nat {
    d % 0x8000 * 1_000_000 / hz
}

/// A code read: its carrier and its durations in microseconds.
pub open spec fn pronto_read(code: Seq<char>) -> Result<(nat, Seq<nat>), FaultModel> {
    match hex_words(words(code)) {
        None => Err(FaultModel::Bad("pronto must be space-separated hex words"@)),
        Some(w) => if w.len() < 5 || w[0] != 0 {
            Err(FaultModel::Bad("only Pronto code type 0000 (raw, learned) is supported"@))
        } else if w[1] == 0 {
            Err(FaultModel::Bad("pronto carrier word cannot be 0000"@))
        } else {
            let hz = PRONTO_HZ as nat / w[1] as nat;
            Ok((hz, Seq::new((w.len() - 4) as nat, |i: int| micros(w[i + 4] as nat, hz))))
        },
    }
}

proof fn lemma_micros_fit(d: u16, word: u16)
    requires
        word > 0,
    ensures
        PRONTO_HZ / word as u32 >= 63,
        micros(d as nat, (PRONTO_HZ / word as u32) as nat) <= u32::MAX,
{
    let hz = PRONTO_HZ / word as u32;
    assert(hz >= 63) by (nonlinear_arith)
        requires
            hz == 4_145_146u32 / word as u32,
            0 < word <= 65535,
    ;
    let n = d as nat % 0x8000 * 1_000_000;
    assert(n / hz as nat <= n) by (nonlinear_arith)
        requires
            hz >= 63,
    ;
    assert(n / hz as nat <= 0x8000 * 1_000_000 / 63) by (nonlinear_arith)
        requires
            n <= 0x8000 * 1_000_000,
            hz >= 63,
    ;
}

/// Parse a learned Pronto code into its carrier in Hz and its durations in
/// microseconds. A zero carrier word would divide by zero in the emitter's
/// firmware and is refused.
pub fn parse_pronto(code: &str) -> (r: Result<(u32, Vec<u32>), Fault>)
    ensures
        match pronto_read(code@) {
            Ok((hz, us)) => r is Ok && r->Ok_0.0 == hz && r->Ok_0.1@.len() == us.len() && forall|i: int|
                0 <= i < us.len() ==> #[trigger] r->Ok_0.1@[i] == us[i],
            Err(f) => r is Err && r->Err_0@ == f,
        },
{
    let chars = to_chars(code);
    let ws = words_of(chars.as_slice());
    let w = match parse_words(&ws) {
        Some(v) => v,
        None => {
            return Err(bad("pronto must be space-separated hex words"));
        },
    };
    if w.len() < 5 || w[0] != 0 {
        return Err(bad("only Pronto code type 0000 (raw, learned) is supported"));
    }
    let word: u16 = w[1];
    if word == 0 {
        return Err(bad("pronto carrier word cannot be 0000"));
    }
    let hz: u32 = PRONTO_HZ / word as u32;
    let mut us: Vec<u32> = Vec::new();
    let mut i: usize = 4;
    while i < w.len()
        invariant
            4 <= i <= w@.len(),
            word > 0,
            hz == PRONTO_HZ / word as u32,
            us@.len() == i - 4,
            forall|k: int| 0 <= k < us@.len() ==> #[trigger] us@[k] == micros(w@[k + 4] as nat, hz as nat),
        decreases w@.len() - i,
    {
        proof {
            lemma_micros_fit(w@[i as int], word);
        }
        let n: u64 = (w[i] % 0x8000) as u64 * 1_000_000 / hz as u64;
        us.push(n as u32);
        i += 1;
    }
    Ok((hz, us))
}

/// Four upper-case hexadecimal digits.
pub open spec fn hex4(n: nat) -> Seq<char> {
    upper(hex_fixed(n, 4))
}

fn push_hex4(out: &mut String, n: u16)
    ensures
        final(out)@ == old(out)@ + hex4(n as nat),
{
    let ghost was = out@;
    let a: u8 = (n / 4096) as u8;
    let b: u8 = (n / 256 % 16) as u8;
    let c: u8 = (n / 16 % 16) as u8;
    let d: u8 = (n % 16) as u8;
    out.push(to_upper_char(digit_of(a)));
    out.push(to_upper_char(digit_of(b)));
    out.push(to_upper_char(digit_of(c)));
    out.push(to_upper_char(digit_of(d)));
    proof {
        let m = n as nat;
        reveal_with_fuel(hex_fixed, 5);
        assert(m / 16 / 16 / 16 % 16 == a);
        assert(m / 16 / 16 % 16 == b);
        assert(hex_fixed(m, 4) =~= seq![
            digit_char(a as int),
            digit_char(b as int),
            digit_char(c as int),
            digit_char(d as int),
        ]);
        assert(hex4(m) =~= seq![
            upper_char(digit_char(a as int)),
            upper_char(digit_char(b as int)),
            upper_char(digit_char(c as int)),
            upper_char(digit_char(d as int)),
        ]);
        assert(out@ =~= was + hex4(m));
    }
}

/// A duration in carrier periods, as far as a Pronto word holds it.
pub open spec fn periods(d: nat, hz: nat) -> nat {
    let p = d * hz / 1_000_000;
    if p > 0x7fff {
        0x7fff
    } else {
        p
    }
}

pub open spec fn carrier_word(hz: nat) -> nat {
    PRONTO_HZ as nat / (if hz == 0 {
        1
    } else {
        hz
    }) % 0x1_0000
}

pub open spec fn pronto_tail(durs: Seq<u32>, hz: nat) -> Seq<char>
    decreases durs.len(),
{
    if durs.len() == 0 {
        seq![]
    } else {
        pronto_tail(durs.drop_last(), hz) + " "@ + hex4(periods(durs.last() as nat, hz))
    }
}

/// Microsecond marks and spaces as a learned Pronto code.
pub open spec fn pronto_text(durs: Seq<u32>, hz: nat) -> Seq<char> {
    "0000 "@ + hex4(carrier_word(hz)) + " "@ + hex4(durs.len() / 2 % 0x1_0000) + " 0000"@ + pronto_tail(durs, hz)
}

pub fn to_pronto(durs: &[u32], carrier_hz: u32) -> (r: String)
    ensures
        r@ == pronto_text(durs@, carrier_hz as nat),
{
    let div: u32 = if carrier_hz == 0 { 1 } else { carrier_hz };
    let word: u32 = PRONTO_HZ / div % 0x1_0000;
    let pairs: u64 = (durs.len() as u64 / 2) % 0x1_0000;
    let mut out = String::from_str("0000 ");
    push_hex4(&mut out, word as u16);
    out.append(" ");
    push_hex4(&mut out, pairs as u16);
    out.append(" 0000");
    let ghost head = out@;
    let mut i: usize = 0;
    assert(head + pronto_tail(durs@.take(0), carrier_hz as nat) =~= head);
    while i < durs.len()
        invariant
            i <= durs@.len(),
            out@ == head + pronto_tail(durs@.take(i as int), carrier_hz as nat),
        decreases durs@.len() - i,
    {
        assert(durs@.take(i + 1).drop_last() =~= durs@.take(i as int));
        let ghost before = pronto_tail(durs@.take(i as int), carrier_hz as nat);
        let d: u64 = durs[i] as u64;
        assert(d * carrier_hz as u64 <= 0xffff_fffe_0000_0001) by (nonlinear_arith)
            requires
                d <= 0xffff_ffff,
                carrier_hz <= 0xffff_ffff,
        ;
        let p: u64 = d * carrier_hz as u64 / 1_000_000;
        let w: u16 = if p > 0x7fff { 0x7fff } else { p as u16 };
        out.append(" ");
        push_hex4(&mut out, w);
        assert(head + (before + " "@ + hex4(w as nat)) =~= head + before + " "@ + hex4(w as nat));
        i += 1;
    }
    assert(durs@.take(durs@.len() as int) =~= durs@);
    out
}

/// A learned duration goes back out as it came, or one period short: integer
/// microseconds lose less than a period. It holds for every carrier up to one
/// megahertz, which is every carrier word from five on.
pub proof fn law_a_learned_duration_survives(d: nat, hz: nat)
    requires
        d < 0x8000,
        0 < hz <= 1_000_000,
    ensures
        periods(micros(d, hz), hz) <= d,
        d <= periods(micros(d, hz), hz) + 1,
{
    let n = d * 1_000_000;
    let us = n / hz;
    assert(d % 0x8000 == d);
    assert(us * hz <= n && n < us * hz + hz) by (nonlinear_arith)
        requires
            us == n / hz,
            hz > 0,
    ;
    let back = us * hz / 1_000_000;
    assert(back * 1_000_000 <= us * hz < back * 1_000_000 + 1_000_000);
}

/// The carrier word comes back as it was sent, for every word whose carrier is
/// at least the word itself.
pub proof fn law_the_carrier_word_survives(word: nat)
    requires
        0 < word < 0x1_0000,
        word <= PRONTO_HZ as nat / word,
    ensures
        carrier_word(PRONTO_HZ as nat / word) == word,
{
    let h = PRONTO_HZ as nat;
    let hz = h / word;
    assert(h / hz == word) by (nonlinear_arith)
        requires
            hz == h / word,
            0 < word <= hz,
    ;
}

/// Four digits are a word without white space, and read back as the number.
proof fn lemma_hex4(n: nat)
    requires
        n < 0x1_0000,
    ensures
        hex4(n).len() == 4,
        forall|k: int| 0 <= k < 4 ==> !white(#[trigger] hex4(n)[k]),
        parse_unsigned(hex4(n), 16, 0xffff) == Some(n),
{
    let a = n / 4096;
    let b = n / 256 % 16;
    let c = n / 16 % 16;
    let d = n % 16;
    reveal_with_fuel(hex_fixed, 5);
    assert(n / 16 / 16 / 16 % 16 == a);
    assert(n / 16 / 16 % 16 == b);
    let h = hex4(n);
    assert(h =~= seq![
        upper_char(digit_char(a as int)),
        upper_char(digit_char(b as int)),
        upper_char(digit_char(c as int)),
        upper_char(digit_char(d as int)),
    ]);
    assert(digit_val(h[0]) == a && digit_val(h[1]) == b && digit_val(h[2]) == c && digit_val(h[3]) == d);
    reveal_with_fuel(digits_value, 5);
    let h3 = h.drop_last();
    let h2 = h3.drop_last();
    let h1 = h2.drop_last();
    assert(h1.drop_last() =~= seq![]);
    assert(h3.last() == h[2] && h2.last() == h[1] && h1.last() == h[0]);
    assert(digits_value(h1, 16) == Some(a));
    assert(digits_value(h2, 16) == Some(a * 16 + b));
    assert(digits_value(h3, 16) == Some((a * 16 + b) * 16 + c));
    assert(n == ((a * 16 + b) * 16 + c) * 16 + d);
}

/// The words of a written code from the fifth on.
pub open spec fn duration_words(durs: Seq<u32>, hz: nat) -> Seq<Seq<char>> {
    Seq::new(durs.len(), |i: int| hex4(periods(durs[i] as nat, hz)))
}

/// The words of a written code.
pub open spec fn code_words(durs: Seq<u32>, hz: nat) -> Seq<Seq<char>> {
    seq!["0000"@, hex4(carrier_word(hz)), hex4(durs.len() / 2 % 0x1_0000), "0000"@] + duration_words(durs, hz)
}

proof fn lemma_tail_words(head: Seq<char>, durs: Seq<u32>, hz: nat)
    ensures
        words(head + pronto_tail(durs, hz)) == words(head) + duration_words(durs, hz),
    decreases durs.len(),
{
    if durs.len() == 0 {
        assert(head + pronto_tail(durs, hz) =~= head);
        assert(words(head) + duration_words(durs, hz) =~= words(head));
    } else {
        let before = durs.drop_last();
        let w = hex4(periods(durs.last() as nat, hz));
        lemma_tail_words(head, before, hz);
        lemma_hex4(periods(durs.last() as nat, hz));
        assert(head + pronto_tail(durs, hz) =~= head + pronto_tail(before, hz) + " "@ + w);
        lemma_words_push(head + pronto_tail(before, hz), w);
        assert(duration_words(durs, hz) =~= duration_words(before, hz).push(w));
        assert(words(head) + duration_words(durs, hz) =~= (words(head) + duration_words(before, hz)).push(w));
    }
}

proof fn lemma_code_words(durs: Seq<u32>, hz: nat)
    ensures
        words(pronto_text(durs, hz)) == code_words(durs, hz),
{
    let zero = "0000"@;
    let c = hex4(carrier_word(hz));
    let n = hex4(durs.len() / 2 % 0x1_0000);
    reveal_strlit("0000");
    reveal_strlit("0000 ");
    reveal_strlit(" 0000");
    reveal_strlit(" ");
    lemma_hex4(carrier_word(hz));
    lemma_hex4(durs.len() / 2 % 0x1_0000);
    lemma_one_word(zero);
    let one = zero + " "@ + c;
    let two = one + " "@ + n;
    let three = two + " "@ + zero;
    lemma_words_push(zero, c);
    lemma_words_push(one, n);
    lemma_words_push(two, zero);
    lemma_tail_words(three, durs, hz);
    assert(three =~= "0000 "@ + c + " "@ + n + " 0000"@);
    assert(words(three) =~= seq![zero, c, n, zero]);
}

proof fn lemma_words_read(ws: Seq<Seq<char>>, w: Seq<u16>)
    requires
        ws.len() == w.len(),
        forall|i: int| 0 <= i < ws.len() ==> parse_unsigned(#[trigger] ws[i], 16, 0xffff) == Some(w[i] as nat),
    ensures
        hex_words(ws) == Some(w),
    decreases ws.len(),
{
    if ws.len() == 0 {
        assert(w =~= seq![]);
    } else {
        assert forall|i: int| 0 <= i < ws.drop_last().len() implies parse_unsigned(
            #[trigger] ws.drop_last()[i],
            16,
            0xffff,
        ) == Some(w.drop_last()[i] as nat) by {
            assert(ws.drop_last()[i] == ws[i]);
        }
        lemma_words_read(ws.drop_last(), w.drop_last());
        assert(ws.last() == ws[ws.len() - 1]);
        assert(w =~= w.drop_last().push(w.last()));
    }
}

proof fn lemma_word_count(ws: Seq<Seq<char>>)
    requires
        hex_words(ws) is Some,
    ensures
        hex_words(ws)->0.len() == ws.len(),
    decreases ws.len(),
{
    if ws.len() > 0 {
        lemma_word_count(ws.drop_last());
    }
}

/// A learned code goes back out as it came: as many words, the type word 0000,
/// the count of pairs, and each duration as it was or one period short. It holds
/// of every code whose carrier word is five or more and whose durations fit
/// fifteen bits; the carrier word itself is kept where the carrier is at least
/// the word.
pub proof fn law_a_learned_code_survives(code: Seq<char>, us: Seq<u32>)
    requires
        pronto_read(code) is Ok,
        hex_words(words(code))->0[1] >= 5,
        forall|i: int|
            4 <= i < hex_words(words(code))->0.len() ==> #[trigger] hex_words(words(code))->0[i] <= 0x7fff,
        us.len() == pronto_read(code)->Ok_0.1.len(),
        forall|i: int| 0 <= i < us.len() ==> #[trigger] us[i] == pronto_read(code)->Ok_0.1[i],
    ensures
        ({
            let (hz, _) = pronto_read(code)->Ok_0;
            let sent = hex_words(words(code))->0;
            let back = words(pronto_text(us, hz));
            &&& back.len() == words(code).len()
            &&& back[0] == "0000"@
            &&& hex_words(back) matches Some(got)
            &&& got.len() == sent.len()
            &&& got[0] == 0
            &&& sent[1] <= hz ==> got[1] == sent[1]
            &&& got[2] == us.len() / 2 % 0x1_0000
            &&& got[3] == 0
            &&& forall|i: int|
                4 <= i < sent.len() ==> (#[trigger] got[i] == sent[i] || got[i] == sent[i] - 1)
        }),
{
    let hz = pronto_read(code)->Ok_0.0;
    let sent = hex_words(words(code))->0;
    let back = code_words(us, hz);
    lemma_word_count(words(code));
    lemma_code_words(us, hz);
    lemma_micros_fit(0, sent[1]);
    assert(hz <= 1_000_000) by (nonlinear_arith)
        requires
            hz == 4_145_146nat / sent[1] as nat,
            sent[1] >= 5,
    ;
    let got = seq![0u16, carrier_word(hz) as u16, (us.len() / 2 % 0x1_0000) as u16, 0u16] + Seq::new(
        us.len(),
        |i: int| periods(us[i] as nat, hz) as u16,
    );
    reveal_strlit("0000");
    lemma_hex4(0);
    reveal_with_fuel(hex_fixed, 5);
    assert("0000"@ =~= hex4(0));
    lemma_hex4(carrier_word(hz));
    lemma_hex4(us.len() / 2 % 0x1_0000);
    assert forall|i: int| 0 <= i < back.len() implies parse_unsigned(#[trigger] back[i], 16, 0xffff) == Some(
        got[i] as nat,
    ) by {
        if i >= 4 {
            lemma_hex4(periods(us[i - 4] as nat, hz));
        }
    }
    lemma_words_read(back, got);
    if sent[1] <= hz {
        law_the_carrier_word_survives(sent[1] as nat);
    }
    assert forall|i: int| 4 <= i < sent.len() implies #[trigger] got[i] == sent[i] || got[i] == sent[i] - 1 by {
        assert(us[i - 4] == micros(sent[i] as nat, hz));
        law_a_learned_duration_survives(sent[i] as nat, hz);
    }
}

// ----------------------------------------------------------------------- receiving

/// A received code.
#[derive(Debug)]
pub struct IrCode {
    pub pronto: String,
    pub carrier_hz: u32,
    pub durations: usize,
}

pub ghost struct CodeModel {
    pub pronto: Seq<char>,
    pub carrier_hz: u32,
    pub durations: nat,
}

impl View for IrCode {
    type V = CodeModel;

    open spec fn view(&self) -> CodeModel {
        CodeModel { pronto: self.pronto@, carrier_hz: self.carrier_hz, durations: self.durations as nat }
    }
}

/// A received code as its event tells it.
pub open spec fn code_doc(c: CodeModel) -> JsonModel {
    let o = with(seq![], "pronto"@, JsonModel::Text(c.pronto));
    let o = with(o, "carrier_hz"@, JsonModel::Number(c.carrier_hz as nat));
    JsonModel::Object(with(o, "durations"@, JsonModel::Number(c.durations)))
}

/// The value of the event that says a code was received.
pub fn code_event(code: &IrCode) -> (r: Json)
    ensures
        r@ == code_doc(code@),
{
    let mut o: Vec<Member> = Vec::new();
    assert(members(o@) =~= seq![]);
    put(&mut o, "pronto", text(code.pronto.as_str()));
    put(&mut o, "carrier_hz", Json::Number(code.carrier_hz as u64));
    put(&mut o, "durations", Json::Number(code.durations as u64));
    object(o)
}

/// The kinds of a mode-2 sample, in its top byte.
pub const MODE2_SPACE: u32 = 0;

pub const MODE2_PULSE: u32 = 0x0100_0000;

pub const MODE2_FREQUENCY: u32 = 0x0200_0000;

pub const MODE2_TIMEOUT: u32 = 0x0300_0000;

/// The receiver's samples since the last code.
#[derive(Debug)]
pub struct Receiver {
    durs: Vec<u32>,
    carrier: u32,
}

pub ghost struct ReceiverModel {
    pub durs: Seq<u32>,
    pub carrier: u32,
}

impl View for Receiver {
    type V = ReceiverModel;

    closed spec fn view(&self) -> ReceiverModel {
        ReceiverModel { durs: self.durs@, carrier: self.carrier }
    }
}

impl ReceiverModel {
    pub open spec fn hz(self) -> u32 {
        if self.carrier > 0 {
            self.carrier
        } else {
            DEFAULT_CARRIER_HZ
        }
    }

    /// One sample. A space before any mark is the gap since the last code; a
    /// timeout ends the code, if there is one.
    pub open spec fn hear(self, sample: u32) -> (ReceiverModel, Option<CodeModel>) {
        let value = sample % 0x100_0000;
        let kind = sample - value;
        if kind == MODE2_PULSE || (kind == MODE2_SPACE && self.durs.len() > 0) {
            (ReceiverModel { durs: self.durs.push(value), ..self }, None)
        } else if kind == MODE2_TIMEOUT {
            (
                ReceiverModel { durs: seq![], ..self },
                if self.durs.len() > 0 {
                    Some(
                        CodeModel {
                            pronto: pronto_text(self.durs, self.hz() as nat),
                            carrier_hz: self.hz(),
                            durations: self.durs.len(),
                        },
                    )
                } else {
                    None
                },
            )
        } else if kind == MODE2_FREQUENCY {
            (ReceiverModel { carrier: value, ..self }, None)
        } else {
            (self, None)
        }
    }
}

impl Receiver {
    pub fn new() -> (r: Receiver)
        ensures
            r@ == (ReceiverModel { durs: seq![], carrier: 0 }),
    {
        let r = Receiver { durs: Vec::new(), carrier: 0 };
        assert(r.durs@ =~= seq![]);
        r
    }

    /// Take in one sample; a code that it completed comes back.
    pub fn hear(&mut self, sample: u32) -> (r: Option<IrCode>)
        ensures
            final(self)@ == old(self)@.hear(sample).0,
            match old(self)@.hear(sample).1 {
                Some(c) => r is Some && r->0@ == c,
                None => r is None,
            },
    {
        let value: u32 = sample % 0x100_0000;
        let kind: u32 = sample - value;
        if kind == MODE2_PULSE || (kind == MODE2_SPACE && self.durs.len() > 0) {
            self.durs.push(value);
            return None;
        }
        if kind == MODE2_TIMEOUT {
            let n: usize = self.durs.len();
            let mut code: Option<IrCode> = None;
            if n > 0 {
                let hz: u32 = if self.carrier > 0 { self.carrier } else { DEFAULT_CARRIER_HZ };
                code = Some(
                    IrCode { pronto: to_pronto(self.durs.as_slice(), hz), carrier_hz: hz, durations: n },
                );
            }
            self.durs = Vec::new();
            assert(self.durs@ =~= seq![]);
            return code;
        }
        if kind == MODE2_FREQUENCY {
            self.carrier = value;
        }
        None
    }
}

} // verus!
