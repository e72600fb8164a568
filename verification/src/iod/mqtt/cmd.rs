//! Commands as topics.
//!
//! Payloads are the plain strings an automation tool sends, `ON`, `OFF`,
//! `TOGGLE`, because half of what publishes here is a switch of a home
//! automation system or a one-line shell script, not a JSON encoder.
use crate::iod::ir::IrTarget;
use crate::iod::events::{lemma_level_in_front, lemma_number_level, lemma_only_level, one_level};
use crate::iod::mqtt::topics::{index_at, index_of, law_labels_name_their_index, payload_of};
use crate::iod::ops::{Cmd, CmdModel};
use crate::json::JsonModel;
use crate::num::{dec, parse_number, parse_unsigned};
use crate::text::{eq_str, from_chars, slices, split, split_of, to_chars, to_upper, trim, trimmed, upper, Class};
use vstd::prelude::*;
use vstd::string::*;

verus! {

/// The front blaster by name, or a jack by its label.
pub open spec fn emitter_of(label: Seq<char>) -> Option<IrTarget> {
    if label == "front"@ {
        Some(IrTarget::Front)
    } else {
        match index_of(label) {
            Some(i) => Some(IrTarget::Jack((i + 1) as u8)),
            None => None,
        }
    }
}

pub open spec fn relay_cmd(index: u8, word: Seq<char>) -> Option<CmdModel> {
    if word == "ON"@ || word == "TRUE"@ || word == "1"@ {
        Some(CmdModel::RelaySet { index: index as nat, on: true })
    } else if word == "OFF"@ || word == "FALSE"@ || word == "0"@ {
        Some(CmdModel::RelaySet { index: index as nat, on: false })
    } else if word == "TOGGLE"@ {
        Some(CmdModel::RelayToggle { index: index as nat })
    } else {
        None
    }
}

/// The command a topic's tail and payload spell. `raw` is what the payload reads
/// as when it is a command in JSON.
pub open spec fn cmd_of(tail: Seq<char>, body: Seq<char>, raw: Option<CmdModel>) -> Option<CmdModel> {
    let p = split(tail, Class::One('/'));
    let b = trim(body);
    if p.len() == 1 && p[0] == "raw"@ {
        raw
    } else if p.len() == 2 && p[0] == "mcu"@ && p[1] == "reset"@ {
        Some(CmdModel::McuReset)
    } else if p.len() != 3 {
        None
    } else if p[0] == "relay"@ && p[2] == "set"@ {
        match index_of(p[1]) {
            Some(i) => relay_cmd(i, upper(b)),
            None => None,
        }
    } else if p[0] == "ir"@ && p[2] == "send"@ {
        match emitter_of(p[1]) {
            Some(t) => Some(CmdModel::IrSend { port: t, pronto: b, repeat: 1 }),
            None => None,
        }
    } else if p[0] == "serial"@ && p[2] == "write"@ {
        match index_of(p[1]) {
            Some(i) => Some(CmdModel::SerialWrite { index: i as nat, data: body, hex: false, b64: false }),
            None => None,
        }
    } else if p[0] == "serial"@ && p[2] == "baud"@ {
        match (index_of(p[1]), parse_unsigned(b, 10, 0xffff_ffff)) {
            (Some(i), Some(n)) => Some(CmdModel::SerialBaud { index: i as nat, baud: n }),
            _ => None,
        }
    } else {
        None
    }
}

pub open spec fn opt_cmd(c: Option<Cmd>) -> Option<CmdModel> {
    match c {
        Some(x) => Some(x@),
        None => None,
    }
}

fn relay_word(index: u8, word: &[char]) -> (r: Option<Cmd>)
    ensures
        opt_cmd(r) == relay_cmd(index, word@),
{
    if eq_str(word, "ON") || eq_str(word, "TRUE") || eq_str(word, "1") {
        Some(Cmd::RelaySet { index, on: true })
    } else if eq_str(word, "OFF") || eq_str(word, "FALSE") || eq_str(word, "0") {
        Some(Cmd::RelaySet { index, on: false })
    } else if eq_str(word, "TOGGLE") {
        Some(Cmd::RelayToggle { index })
    } else {
        None
    }
}

/// Map a command topic's tail plus its payload to a command.
pub fn parse_cmd(tail: &str, body: &str, raw: Option<Cmd>) -> (r: Option<Cmd>)
    ensures
        opt_cmd(r) == cmd_of(tail@, body@, opt_cmd(raw)),
{
    let tc = to_chars(tail);
    let p = split_of(tc.as_slice(), &Class::One('/'));
    let ghost ps = slices(p@);
    let bc = to_chars(body);
    let b = trimmed(bc.as_slice());
    assert(ps.len() == p@.len());
    if p.len() == 1 {
        assert(ps[0] == p@[0]@);
        if eq_str(p[0], "raw") {
            return raw;
        }
        return None;
    }
    if p.len() == 2 {
        assert(ps[0] == p@[0]@ && ps[1] == p@[1]@);
        if eq_str(p[0], "mcu") && eq_str(p[1], "reset") {
            return Some(Cmd::McuReset);
        }
        return None;
    }
    if p.len() != 3 {
        return None;
    }
    assert(ps[0] == p@[0]@ && ps[1] == p@[1]@ && ps[2] == p@[2]@);
    if eq_str(p[0], "relay") && eq_str(p[2], "set") {
        return match index_at(p[1]) {
            Some(i) => {
                let up = to_upper(b);
                relay_word(i, up.as_slice())
            },
            None => None,
        };
    }
    if eq_str(p[0], "ir") && eq_str(p[2], "send") {
        if eq_str(p[1], "front") {
            return Some(Cmd::IrSend { port: IrTarget::Front, pronto: from_chars(b), repeat: 1 });
        }
        return match index_at(p[1]) {
            Some(i) => Some(Cmd::IrSend { port: IrTarget::Jack(i + 1), pronto: from_chars(b), repeat: 1 }),
            None => None,
        };
    }
    if eq_str(p[0], "serial") && eq_str(p[2], "write") {
        return match index_at(p[1]) {
            Some(i) => Some(
                Cmd::SerialWrite { index: i as usize, data: String::from_str(body), hex: false, b64: false },
            ),
            None => None,
        };
    }
    if eq_str(p[0], "serial") && eq_str(p[2], "baud") {
        return match (index_at(p[1]), parse_number(b, 10, 0xffff_ffff)) {
            (Some(i), Some(n)) => Some(Cmd::SerialBaud { index: i as usize, baud: n as u32 }),
            _ => None,
        };
    }
    None
}

/// Zero is not a label any hardware carries: nothing is driven for it.
pub proof fn law_zero_drives_nothing(tail: Seq<char>, body: Seq<char>, raw: Option<CmdModel>)
    requires
        split(tail, Class::One('/')).len() == 3,
        split(tail, Class::One('/'))[1] == "0"@,
    ensures
        cmd_of(tail, body, raw) is None,
{
    reveal_strlit("0");
    reveal_strlit("front");
    let z = "0"@;
    assert(z =~= seq!['0']);
    assert("front"@[0] == 'f');
    assert(index_of(z) is None) by {
        reveal_with_fuel(crate::num::digits_value, 3);
        assert(z.drop_last() =~= seq![]);
        assert(crate::num::digits_value(z, 10) == Some(0nat));
    }
}

/// A command topic for one thing: what it is, the number on the panel, and what to
/// do with it.
pub open spec fn numbered(kind: Seq<char>, i: nat, what: Seq<char>) -> Seq<char> {
    kind + "/"@ + dec(i + 1) + "/"@ + what
}

proof fn lemma_numbered(kind: Seq<char>, i: nat, what: Seq<char>)
    requires
        one_level(kind),
        one_level(what),
    ensures
        split(numbered(kind, i, what), Class::One('/')) == seq![kind, dec(i + 1), what],
{
    lemma_number_level(i + 1);
    lemma_only_level(what);
    lemma_level_in_front(dec(i + 1), what);
    lemma_level_in_front(kind, dec(i + 1) + "/"@ + what);
    assert(numbered(kind, i, what) =~= kind + "/"@ + (dec(i + 1) + "/"@ + what));
    assert(seq![kind] + (seq![dec(i + 1)] + seq![what]) =~= seq![kind, dec(i + 1), what]);
}

/// The word a relay publishes for a state, sent to it as a command, sets that very
/// state on that very relay; and so do the words an automation system uses for it,
/// in either case of letters.
pub proof fn law_a_relay_obeys_its_own_words(i: u8, on: bool, raw: Option<CmdModel>)
    requires
        i < 255,
    ensures
        cmd_of(numbered("relay"@, i as nat, "set"@), payload_of(JsonModel::Bool(on)), raw) == Some(
            CmdModel::RelaySet { index: i as nat, on },
        ),
        forall|body: Seq<char>|
            #![trigger cmd_of(numbered("relay"@, i as nat, "set"@), body, raw)]
            upper(trim(body)) == payload_of(JsonModel::Bool(on)) ==> cmd_of(
                numbered("relay"@, i as nat, "set"@),
                body,
                raw,
            ) == Some(CmdModel::RelaySet { index: i as nat, on }),
{
    reveal_strlit("relay");
    reveal_strlit("set");
    reveal_strlit("ON");
    reveal_strlit("OFF");
    reveal_strlit("TRUE");
    reveal_strlit("FALSE");
    reveal_strlit("1");
    reveal_strlit("0");
    lemma_numbered("relay"@, i as nat, "set"@);
    law_labels_name_their_index(i);
    let w = payload_of(JsonModel::Bool(on));
    assert("ON"@ =~= seq!['O', 'N']);
    assert("OFF"@ =~= seq!['O', 'F', 'F']);
    assert("OFF"@.len() == 3 && "ON"@.len() == 2 && "TRUE"@.len() == 4 && "1"@.len() == 1);
    assert(w.len() > 0 && !crate::text::white(w[0]) && !crate::text::white(w.last()));
    assert(crate::text::skip_class(w, Class::White, 0) == 0);
    assert(crate::text::unskip_class(w, Class::White, 0, w.len() as int) == w.len());
    assert(trim(w) =~= w);
    assert(upper(w) =~= w);
}

/// What a command names is what is driven: a relay, an IR output or a serial port by
/// the number on the panel, which is one more than its index, and never another.
pub proof fn law_a_command_drives_what_it_names(
    tail: Seq<char>,
    body: Seq<char>,
    raw: Option<CmdModel>,
)
    requires
        split(tail, Class::One('/')).len() == 3,
        cmd_of(tail, body, raw) is Some,
    ensures
        ({
            let p = split(tail, Class::One('/'));
            match cmd_of(tail, body, raw)->0 {
                CmdModel::RelaySet { index, .. } => p[0] == "relay"@ && parse_unsigned(p[1], 10, 255) == Some(index + 1),
                CmdModel::RelayToggle { index } => p[0] == "relay"@ && parse_unsigned(p[1], 10, 255) == Some(index + 1),
                CmdModel::IrSend { port, pronto, repeat } => p[0] == "ir"@ && pronto == trim(body) && repeat == 1
                    && match port {
                    IrTarget::Front => p[1] == "front"@,
                    IrTarget::Jack(n) => parse_unsigned(p[1], 10, 255) == Some(n as nat) && n > 0,
                },
                CmdModel::SerialWrite { index, data, hex, b64 } => p[0] == "serial"@ && parse_unsigned(p[1], 10, 255)
                    == Some(index + 1) && data == body && !hex && !b64,
                CmdModel::SerialBaud { index, baud } => p[0] == "serial"@ && parse_unsigned(p[1], 10, 255) == Some(
                    index + 1,
                ) && parse_unsigned(trim(body), 10, 0xffff_ffff) == Some(baud),
                _ => false,
            }
        }),
{
}

} // verus!
