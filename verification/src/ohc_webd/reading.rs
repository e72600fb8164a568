//! What the board file and the command line say, read word by word.
use crate::env::env_get;
use crate::iod::api::field;
use crate::json::{lemma_member, member, with, JsonModel};
use crate::ohc_webd::args::{defaults, read_args, ConfigModel};
use crate::ohc_webd::board::{
    board_doc, board_of, device_of, port_doc, port_of, radio_doc, radios_in, BoardModel, PortModel, RadioModel,
};
use crate::ohc_webd::radio::{heard_doc, hex_of, line_rate, payload_of};
use crate::text::{first_from, lemma_first_from, lossy_text, utf8, Class};
use vstd::prelude::*;
use vstd::string::*;

verus! {

proof fn lemma_members()
    ensures
        forall|o: Seq<(Seq<char>, JsonModel)>, k: Seq<char>, v: JsonModel, q: Seq<char>|
            #[trigger] member(with(o, k, v), q) == (if q == k {
                Some(v)
            } else {
                member(o, q)
            }),
{
    assert forall|o: Seq<(Seq<char>, JsonModel)>, k: Seq<char>, v: JsonModel, q: Seq<char>|
        #[trigger] member(with(o, k, v), q) == (if q == k {
            Some(v)
        } else {
            member(o, q)
        }) by {
        lemma_member(o, k, v, q);
    }
}

/// A word `kind:device` is a radio of that kind at that device; a word without a colon
/// is none.
pub proof fn law_a_word_is_a_radio(ws: Seq<Seq<char>>, kind: Seq<char>, dev: Seq<char>)
    requires
        forall|i: int| 0 <= i < kind.len() ==> #[trigger] kind[i] != ':',
    ensures
        radios_in(ws.push(kind + ":"@ + dev)) == radios_in(ws).push(RadioModel { kind, dev }),
        radios_in(ws.push(kind)) == radios_in(ws),
{
    reveal_strlit(":");
    let w = kind + ":"@ + dev;
    let cl = Class::One(':');
    lemma_first_from(w, cl, 0);
    lemma_first_from(kind, cl, 0);
    let j = first_from(w, cl, 0);
    assert(w[kind.len() as int] == ':');
    assert(j == kind.len()) by {
        if j < kind.len() {
            assert(w[j] == kind[j]);
        }
    }
    assert(w.take(j) =~= kind);
    assert(w.skip(j + 1) =~= dev);
    assert(ws.push(w).drop_last() =~= ws);
    assert(ws.push(kind).drop_last() =~= ws);
}

/// A radio is found by its kind, the first of two, and a port by its device.
pub proof fn law_a_radio_is_found_by_its_kind(v: Seq<RadioModel>, kind: Seq<char>)
    ensures
        match device_of(v, kind) {
            Some(d) => exists|i: int| #![trigger v[i]]
                0 <= i < v.len() && v[i].kind == kind && v[i].dev == d && forall|j: int|
                    0 <= j < i ==> (#[trigger] v[j]).kind != kind,
            None => forall|i: int| 0 <= i < v.len() ==> (#[trigger] v[i]).kind != kind,
        },
    decreases v.len(),
{
    if v.len() > 0 {
        let rest = v.skip(1);
        if v[0].kind == kind {
            assert(v[0].dev == device_of(v, kind)->0);
        } else {
            law_a_radio_is_found_by_its_kind(rest, kind);
            match device_of(rest, kind) {
                Some(d) => {
                    let i = choose|i: int| #![trigger rest[i]]
                        0 <= i < rest.len() && rest[i].kind == kind && rest[i].dev == d && forall|j: int|
                            0 <= j < i ==> (#[trigger] rest[j]).kind != kind;
                    assert(v[i + 1] == rest[i]);
                    assert forall|j: int| 0 <= j < i + 1 implies (#[trigger] v[j]).kind != kind by {
                        if j > 0 {
                            assert(rest[j - 1] == v[j]);
                        }
                    }
                },
                None => {
                    assert forall|i: int| 0 <= i < v.len() implies (#[trigger] v[i]).kind != kind by {
                        if i > 0 {
                            assert(rest[i - 1] == v[i]);
                        }
                    }
                },
            }
        }
    }
}

/// A port that is found is one of the board's, and has the device asked for.
pub proof fn law_a_port_is_found_by_its_device(v: Seq<PortModel>, dev: Seq<char>)
    ensures
        match port_of(v, dev) {
            Some(p) => v.contains(p) && p.dev == dev,
            None => forall|i: int| 0 <= i < v.len() ==> (#[trigger] v[i]).dev != dev,
        },
    decreases v.len(),
{
    if v.len() > 0 {
        let rest = v.skip(1);
        if v[0].dev != dev {
            law_a_port_is_found_by_its_device(rest, dev);
            match port_of(rest, dev) {
                Some(p) => {
                    let i = choose|i: int| 0 <= i < rest.len() && rest[i] == p;
                    assert(v[i + 1] == p);
                },
                None => {
                    assert forall|i: int| 0 <= i < v.len() implies (#[trigger] v[i]).dev != dev by {
                        if i > 0 {
                            assert(rest[i - 1] == v[i]);
                        }
                    }
                },
            }
        } else {
            assert(v[0] == port_of(v, dev)->0);
        }
    }
}

/// The documents tell each thing by its own name.
pub proof fn law_the_documents_tell_each_thing(b: BoardModel, r: RadioModel, p: PortModel, heard: Seq<u8>)
    ensures
        field(radio_doc(r), "type"@) == Some(JsonModel::Text(r.kind)),
        field(radio_doc(r), "dev"@) == Some(JsonModel::Text(r.dev)),
        field(port_doc(p), "dev"@) == Some(JsonModel::Text(p.dev)),
        field(port_doc(p), "label"@) == Some(JsonModel::Text(p.label)),
        field(port_doc(p), "baud"@) == Some(JsonModel::Number(p.baud)),
        field(board_doc(b), "model"@) == Some(JsonModel::Text(b.model)),
        field(board_doc(b), "hostname"@) == Some(JsonModel::Text(b.hostname)),
        field(board_doc(b), "uplink_iface"@) == Some(JsonModel::Text(b.uplink_iface)),
        field(board_doc(b), "wifi_iface"@) == Some(JsonModel::Text(b.wifi_iface)),
        field(board_doc(b), "radios"@) matches Some(JsonModel::List(l)) && l.len() == b.radios.len() && forall|i: int|
            0 <= i < l.len() ==> #[trigger] l[i] == radio_doc(b.radios[i]),
        field(board_doc(b), "serials"@) matches Some(JsonModel::List(l)) && l.len() == b.serials.len() && forall|i: int|
            0 <= i < l.len() ==> #[trigger] l[i] == port_doc(b.serials[i]),
        field(heard_doc(heard), "hex"@) == Some(JsonModel::Text(hex_of(heard))),
        field(heard_doc(heard), "text"@) == Some(JsonModel::Text(lossy_text(heard))),
{
    lemma_members();
    reveal_strlit("type");
    reveal_strlit("dev");
    reveal_strlit("label");
    reveal_strlit("baud");
    reveal_strlit("model");
    reveal_strlit("hostname");
    reveal_strlit("uplink_iface");
    reveal_strlit("wifi_iface");
    reveal_strlit("radios");
    reveal_strlit("serials");
    reveal_strlit("hex");
    reveal_strlit("text");
    assert("type"@.len() == 4 && "dev"@.len() == 3 && "label"@.len() == 5 && "baud"@.len() == 4);
    assert("model"@.len() == 5 && "hostname"@.len() == 8 && "uplink_iface"@.len() == 12 && "wifi_iface"@.len() == 10);
    assert("radios"@.len() == 6 && "serials"@.len() == 7 && "hex"@.len() == 3 && "text"@.len() == 4);
}

/// Each of the board's names comes from its own key in the board file.
pub proof fn law_each_name_has_its_key(env: Seq<char>, host: Option<Seq<char>>, x: Seq<char>)
    ensures
        env_get(env, "OHC_MODEL"@) == Some(x) ==> board_of(env, host).model == x,
        env_get(env, "OHC_UPLINK_IFACE"@) == Some(x) ==> board_of(env, host).uplink_iface == x,
        env_get(env, "OHC_WIFI_IFACE"@) == Some(x) ==> board_of(env, host).wifi_iface == x,
        env_get(env, "OHC_RADIOS"@) == Some(x) ==> board_of(env, host).radios == radios_in(crate::text::words(x)),
        env_get(env, "OHC_MODEL"@) is None ==> board_of(env, host).model == "unknown"@,
        env_get(env, "OHC_UPLINK_IFACE"@) is None ==> board_of(env, host).uplink_iface == "eth0"@,
        env_get(env, "OHC_WIFI_IFACE"@) is None ==> board_of(env, host).wifi_iface == ""@,
        env_get(env, "OHC_RADIOS"@) is None ==> board_of(env, host).radios.len() == 0,
        env_get(env, "OHC_SERIALS"@) is None ==> board_of(env, host).serials.len() == 0,
{
}

/// What is sent to a radio is what was asked for: the bytes spelled, or the text's own,
/// and spelled bytes come first.
pub proof fn law_what_is_sent_is_what_was_asked_for(b: Seq<u8>, t: Seq<char>)
    ensures
        payload_of(Some(hex_of(b)), Some(t)) == Some(b),
        payload_of(None, Some(t)) == Some(utf8(t)),
{
    crate::ohc_webd::radio::law_hex_reads_back(b);
}

/// A line runs at the rate asked for when there is such a rate, and else at the usual
/// one.
pub proof fn law_a_line_runs_at_a_rate_there_is(baud: u32)
    ensures
        line_rate(baud) == baud || line_rate(baud) == 115200,
        baud == 9600 || baud == 19200 || baud == 38400 || baud == 57600 || baud == 115200 || baud == 230400 || baud
            == 460800 || baud == 921600 ==> line_rate(baud) == baud,
        line_rate(line_rate(baud)) == line_rate(baud),
        baud < 9600 || baud > 921600 ==> line_rate(baud) == 115200,
{
}

/// Each option of the command line sets its own thing to the word behind it, and what
/// is behind that is read on; help is asked for wherever it stands.
pub proof fn law_each_option_sets_its_own(cfg: ConfigModel, x: Seq<char>, rest: Seq<Seq<char>>)
    ensures
        read_args(cfg, seq!["--bind"@, x] + rest) == read_args(ConfigModel { bind: x, ..cfg }, rest),
        read_args(cfg, seq!["--board-env"@, x] + rest) == read_args(ConfigModel { board_env: x, ..cfg }, rest),
        read_args(cfg, seq!["-h"@] + rest) is None,
        read_args(cfg, seq!["--help"@] + rest) is None,
        read_args(defaults(), seq![]) == Some(ConfigModel { bind: "0.0.0.0:80"@, board_env: "/opt/ohc/board.env"@ }),
{
    reveal_strlit("--bind");
    reveal_strlit("--board-env");
    reveal_strlit("-h");
    reveal_strlit("--help");
    assert("--bind"@.len() == 6 && "--board-env"@.len() == 11 && "-h"@.len() == 2 && "--help"@.len() == 6);
    assert("--bind"@[2] == 'b' && "--help"@[2] == 'h');
    let a = seq!["--bind"@, x] + rest;
    assert(a[0] == "--bind"@ && a[1] == x && a.len() == rest.len() + 2);
    assert(a.skip(2) =~= rest);
    let b = seq!["--board-env"@, x] + rest;
    assert(b[0] == "--board-env"@ && b[1] == x);
    assert(b.skip(2) =~= rest);
    assert((seq!["-h"@] + rest)[0] == "-h"@);
    assert((seq!["--help"@] + rest)[0] == "--help"@);
}

} // verus!
