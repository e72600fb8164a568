//! What the programs and the people that read these files and documents find there.
use crate::engine::shell::{lemma_line_in_front, lemma_trimmed, one_line};
use crate::env::{assignment, first_keyed, hostname_of, last_value, unquoted};
use crate::flasher::loader::is_word;
use crate::iod::api::field;
use crate::iod::board::{io_of, IoModel};
use crate::iod::events::{shown as envelope_doc, EnvelopeModel, MsgModel};
use crate::json::{lemma_member, member, with, JsonModel};
use crate::num::{dec, lemma_print_parse};
use crate::text::{
    first_from, head, lemma_first_from, lemma_last_before, lines, skip_class, split_once, tail, trim, trim_both,
    unskip_class, without, Class,
};
use crate::webd::assets::{file_answer, mime_of, AssetModel, ServedModel};
use crate::webd::board::{board_doc, BoardModel};
use crate::webd::system::{iface_doc, iface_of, placed, shown as ifaces_shown, system_doc, IfaceModel};
use crate::wifi::{
    answered, escaped, first_iface, join_of, law_nothing_is_injected, names_on, network_block, unescaped,
};
use vstd::prelude::*;
use vstd::string::*;

verus! {

/// A member that was put is there, and the others are what they were.
proof fn lemma_members()
    ensures
        forall|o: Seq<(Seq<char>, JsonModel)>, k: Seq<char>, v: JsonModel, q: Seq<char>|
            #[trigger] member(with(o, k, v), q) == (if q == k {
                Some(v)
            } else {
                member(o, q)
            }),
{
    assert forall|o: Seq<(Seq<char>, JsonModel)>, k: Seq<char>, v: JsonModel, q: Seq<char>|
        #[trigger] member(with(o, k, v), q) == (if q == k {
            Some(v)
        } else {
            member(o, q)
        }) by {
        lemma_member(o, k, v, q);
    }
}

// ------------------------------------------------------------------------ board files

/// A value that needs no quotes: a word without quotes or comments in it.
pub open spec fn bare(v: Seq<char>) -> bool {
    is_word(v) && forall|k: int| 0 <= k < v.len() ==> #[trigger] v[k] != '#' && v[k] != '"' && v[k] != '\''
}

proof fn lemma_untouched(v: Seq<char>, cl: Class)
    requires
        v.len() > 0,
        !cl.holds(v[0]),
        !cl.holds(v.last()),
    ensures
        trim_both(v, cl) == v,
{
    assert(skip_class(v, cl, 0) == 0);
    assert(unskip_class(v, cl, 0, v.len() as int) == v.len());
    assert(trim_both(v, cl) =~= v);
}

proof fn lemma_head_all(v: Seq<char>, cl: Class)
    requires
        forall|k: int| 0 <= k < v.len() ==> !cl.holds(#[trigger] v[k]),
    ensures
        head(v, cl) == v,
{
    lemma_first_from(v, cl, 0);
    assert(head(v, cl) =~= v);
}

/// A line `key=value` is read as that key with that value, bare or between quotes; a
/// comment, and a line without a value, is none.
pub proof fn law_an_assignment_is_read(k: Seq<char>, v: Seq<char>)
    requires
        bare(k),
        bare(v),
        forall|i: int| 0 <= i < k.len() ==> #[trigger] k[i] != '=',
    ensures
        assignment(k + "="@ + v) == Some((k, v)),
        assignment(k + "=\""@ + v + "\""@) == Some((k, v)),
        assignment("#"@ + k + "="@ + v) is None,
{
    reveal_strlit("=");
    reveal_strlit("=\"");
    reveal_strlit("\"");
    reveal_strlit("#");
    lemma_bare(v);
    let a = k + "="@ + v;
    lemma_trimmed(a);
    lemma_key(k, v);
    let q = "\""@ + v + "\""@;
    let b = k + "=\""@ + v + "\""@;
    assert(b =~= k + "="@ + q);
    assert(b[0] == k[0] && b.last() == '"');
    lemma_trimmed(b);
    lemma_key(k, q);
    lemma_trimmed(k);
    lemma_head_all(q, Class::One('#'));
    lemma_trimmed(q);
    let cl = Class::One('"');
    lemma_unquote(v);
    lemma_untouched(v, Class::One('\''));
    let c = "#"@ + k + "="@ + v;
    assert(c[0] == '#' && c.last() == v.last());
    lemma_trimmed(c);
}

/// Nothing comes off where there are no quotes.
pub proof fn lemma_plain(v: Seq<char>)
    requires
        bare(v),
    ensures
        trim_both(v, Class::One('"')) == v,
{
    lemma_untouched(v, Class::One('"'));
}

pub proof fn lemma_unquote(v: Seq<char>)
    requires
        bare(v),
    ensures
        trim_both("\""@ + v + "\""@, Class::One('"')) == v,
{
    reveal_strlit("\"");
    let q = "\""@ + v + "\""@;
    let cl = Class::One('"');
    assert(q[0] == '"' && q[1] == v[0] && q[q.len() - 1] == '"' && q[q.len() - 2] == v.last());
    reveal_with_fuel(skip_class, 3);
    reveal_with_fuel(unskip_class, 3);
    assert(skip_class(q, cl, 0) == 1);
    assert(unskip_class(q, cl, 1, q.len() as int) == q.len() - 1);
    assert(trim_both(q, cl) =~= v);
}

proof fn lemma_bare(v: Seq<char>)
    requires
        bare(v),
    ensures
        unquoted(v) == v,
        trim(v) == v,
{
    lemma_head_all(v, Class::One('#'));
    lemma_trimmed(v);
    lemma_untouched(v, Class::One('"'));
    lemma_untouched(v, Class::One('\''));
}

proof fn lemma_key(k: Seq<char>, rest: Seq<char>)
    requires
        bare(k),
        forall|i: int| 0 <= i < k.len() ==> #[trigger] k[i] != '=',
    ensures
        split_once(k + "="@ + rest, Class::One('=')) == Some((k, rest)),
        trim(k) == k,
{
    reveal_strlit("=");
    let s = k + "="@ + rest;
    let cl = Class::One('=');
    lemma_first_from(s, cl, 0);
    let j = first_from(s, cl, 0);
    assert(s[k.len() as int] == '=');
    assert(j == k.len()) by {
        if j < k.len() {
            assert(s[j] == k[j]);
        }
    }
    assert(s.take(j) =~= k);
    assert(s.skip(j + 1) =~= rest);
    lemma_trimmed(k);
}

/// A later assignment wins over an earlier one, and over no other key's.
pub proof fn law_the_last_assignment_wins(
    e: Seq<(Seq<char>, Seq<char>)>,
    k: Seq<char>,
    v: Seq<char>,
    q: Seq<char>,
)
    ensures
        last_value(e.push((k, v)), q) == (if k == q {
            Some(v)
        } else {
            last_value(e, q)
        }),
{
    assert(e.push((k, v)).drop_last() =~= e);
}

/// A name a board file gives, and how many there are of the thing.
pub open spec fn set_to(e: Seq<(Seq<char>, Seq<char>)>, k: Seq<char>, n: nat) -> Seq<(Seq<char>, Seq<char>)> {
    e.push((k, dec(n)))
}

proof fn lemma_board_keys()
    ensures
        "OHC_RELAYS"@.len() == 10,
        "OHC_CONTACTS"@.len() == 12,
        "OHC_IR_OUT"@.len() == 10,
        "OHC_IR_IN"@.len() == 9,
        "OHC_IR_COMBO"@.len() == 12,
        "OHC_IR_BLASTER"@.len() == 14,
        "OHC_IO_BACKEND"@.len() == 14,
        "OHC_IO_MCU_PART"@.len() == 15,
        "OHC_IO_MCU_TTY"@.len() == 14,
        "OHC_IO_MCU_BAUD"@.len() == 15,
        "OHC_RELAY_GPIOS"@.len() == 15,
        "OHC_CONTACT_GPIOS"@.len() == 17,
        "OHC_SERIALS"@.len() == 11,
        "OHC_SERIAL_BAUDS_HOST"@.len() == 21,
        "OHC_SERIAL_BAUDS_MCU"@.len() == 20,
        "OHC_IO_UARTS"@.len() == 12,
        "OHC_RELAYS"@[4] == 'R',
        "OHC_IR_OUT"@[4] == 'I',
        "OHC_CONTACTS"@[4] == 'C',
        "OHC_IR_COMBO"@[4] == 'I',
        "OHC_IR_COMBO"@[5] == 'R',
        "OHC_IO_UARTS"@[4] == 'I',
        "OHC_IO_UARTS"@[5] == 'O',
        "OHC_IR_BLASTER"@[5] == 'R',
        "OHC_IO_BACKEND"@[5] == 'O',
        "OHC_IO_BACKEND"@[7] == 'B',
        "OHC_IO_MCU_TTY"@[5] == 'O',
        "OHC_IO_MCU_TTY"@[7] == 'M',
        "OHC_IO_MCU_PART"@[11] == 'P',
        "OHC_IO_MCU_BAUD"@[11] == 'B',
        "OHC_RELAY_GPIOS"@[4] == 'R',
        "OHC_IO_MCU_PART"@[4] == 'I',
        "OHC_IO_MCU_BAUD"@[4] == 'I',
{
    reveal_strlit("OHC_RELAYS");
    reveal_strlit("OHC_CONTACTS");
    reveal_strlit("OHC_IR_OUT");
    reveal_strlit("OHC_IR_IN");
    reveal_strlit("OHC_IR_COMBO");
    reveal_strlit("OHC_IR_BLASTER");
    reveal_strlit("OHC_IO_BACKEND");
    reveal_strlit("OHC_IO_MCU_PART");
    reveal_strlit("OHC_IO_MCU_TTY");
    reveal_strlit("OHC_IO_MCU_BAUD");
    reveal_strlit("OHC_RELAY_GPIOS");
    reveal_strlit("OHC_CONTACT_GPIOS");
    reveal_strlit("OHC_SERIALS");
    reveal_strlit("OHC_SERIAL_BAUDS_HOST");
    reveal_strlit("OHC_SERIAL_BAUDS_MCU");
    reveal_strlit("OHC_IO_UARTS");
}

/// Each number a board file gives is the number of that thing, and of nothing else: a
/// file that also says how many there are of one thing describes the same board but
/// for that.
pub proof fn law_each_number_is_its_own(e: Seq<(Seq<char>, Seq<char>)>, n: nat)
    requires
        n <= 255,
    ensures
        io_of(set_to(e, "OHC_RELAYS"@, n)) == (IoModel { relays: n, ..io_of(e) }),
        io_of(set_to(e, "OHC_CONTACTS"@, n)) == (IoModel { contacts: n, ..io_of(e) }),
        io_of(set_to(e, "OHC_IR_OUT"@, n)) == (IoModel { ir_out: n, ..io_of(e) }),
        io_of(set_to(e, "OHC_IR_IN"@, n)) == (IoModel { ir_in: n, ..io_of(e) }),
        io_of(set_to(e, "OHC_IR_COMBO"@, n)) == (IoModel { ir_combo: n, ..io_of(e) }),
        io_of(set_to(e, "OHC_IR_BLASTER"@, n)) == (IoModel { ir_blaster: n, ..io_of(e) }),
        io_of(set_to(e, "OHC_IO_MCU_BAUD"@, n)) == (IoModel { mcu_baud: n, ..io_of(e) }),
{
    lemma_print_parse(n, 10, 255);
    lemma_print_parse(n, 10, u32::MAX as nat);
    lemma_board_keys();
    assert forall|k: Seq<char>, q: Seq<char>| #[trigger] last_value(set_to(e, k, n), q) == (if k == q {
        Some(dec(n))
    } else {
        last_value(e, q)
    }) by {
        law_the_last_assignment_wins(e, k, dec(n), q);
    }
    lemma_ports_same(e, "OHC_RELAYS"@, n);
    lemma_ports_same(e, "OHC_CONTACTS"@, n);
    lemma_ports_same(e, "OHC_IR_OUT"@, n);
    lemma_ports_same(e, "OHC_IR_IN"@, n);
    lemma_ports_same(e, "OHC_IR_COMBO"@, n);
    lemma_ports_same(e, "OHC_IR_BLASTER"@, n);
    lemma_ports_same(e, "OHC_IO_MCU_BAUD"@, n);
}

proof fn lemma_ports_same(e: Seq<(Seq<char>, Seq<char>)>, k: Seq<char>, n: nat)
    requires
        k != "OHC_SERIALS"@,
        k != "OHC_SERIAL_BAUDS_HOST"@,
        k != "OHC_SERIAL_BAUDS_MCU"@,
        k != "OHC_IO_UARTS"@,
    ensures
        crate::iod::board::all_ports(set_to(e, k, n)) == crate::iod::board::all_ports(e),
{
    law_the_last_assignment_wins(e, k, dec(n), "OHC_SERIALS"@);
    law_the_last_assignment_wins(e, k, dec(n), "OHC_SERIAL_BAUDS_HOST"@);
    law_the_last_assignment_wins(e, k, dec(n), "OHC_SERIAL_BAUDS_MCU"@);
    law_the_last_assignment_wins(e, k, dec(n), "OHC_IO_UARTS"@);
    assert(crate::iod::board::all_ports(set_to(e, k, n)) =~= crate::iod::board::all_ports(e));
}

/// The board tells its own names.
pub proof fn law_a_board_tells_its_names(b: BoardModel)
    ensures
        field(board_doc(b), "model"@) == Some(JsonModel::Text(b.model)),
        field(board_doc(b), "hostname"@) == Some(JsonModel::Text(b.hostname)),
        field(board_doc(b), "uplink_iface"@) == Some(JsonModel::Text(b.uplink_iface)),
        field(board_doc(b), "wifi_iface"@) == Some(JsonModel::Text(b.wifi_iface)),
{
    lemma_members();
    reveal_strlit("model");
    reveal_strlit("hostname");
    reveal_strlit("uplink_iface");
    reveal_strlit("wifi_iface");
    assert("model"@.len() == 5 && "hostname"@.len() == 8 && "uplink_iface"@.len() == 12 && "wifi_iface"@.len() == 10);
}

// ------------------------------------------------------------------------------ wifi

/// The lines of the file that joins a network: wpa_supplicant reads the name and the
/// key between the quotes, and gets back what was asked for, less control characters.
/// A network without a key is joined without one, and only such a network is.
pub proof fn law_a_network_is_joined_as_asked(iface: Seq<char>, ssid: Seq<char>, psk: Seq<char>)
    requires
        iface.len() > 0,
        ssid.len() > 0,
    ensures
        ({
            let j = join_of(iface, ssid, psk)->Ok_0;
            let ls = lines(j.conf);
            &&& join_of(iface, ssid, psk) is Ok
            &&& j.ssid == ssid
            &&& j.path == "/etc/wpa_supplicant/wpa_supplicant-"@ + iface + ".conf"@
            &&& ls.len() == 6
            &&& ls[2] == "network={"@ && ls[5] == "}"@
            &&& exists|e: Seq<char>|
                ls[3] == "\tssid=\""@ + e + "\""@ && #[trigger] unescaped(e) == Some(without(ssid, Class::Control))
            &&& psk.len() == 0 ==> ls[4] == "\tkey_mgmt=NONE"@
            &&& psk.len() > 0 ==> exists|e: Seq<char>|
                ls[4] == "\tpsk=\""@ + e + "\""@ && #[trigger] unescaped(e) == Some(without(psk, Class::Control))
        }),
{
    law_nothing_is_injected(ssid);
    law_nothing_is_injected(psk);
    lemma_wpa_lines(ssid, psk);
    assert(unescaped(escaped(ssid)) is Some);
    assert(unescaped(escaped(psk)) is Some);
}

spec fn key_line(psk: Seq<char>) -> Seq<char> {
    if psk.len() == 0 {
        "\tkey_mgmt=NONE"@
    } else {
        "\tpsk=\""@ + escaped(psk) + "\""@
    }
}

proof fn lemma_wpa_ones(ssid: Seq<char>, psk: Seq<char>)
    ensures
        one_line("ctrl_interface=/var/run/wpa_supplicant"@),
        one_line("update_config=1"@),
        one_line("network={"@),
        one_line("\tssid=\""@ + escaped(ssid) + "\""@),
        one_line(key_line(psk)),
        one_line("}"@),
{
    reveal_strlit("ctrl_interface=/var/run/wpa_supplicant");
    reveal_strlit("update_config=1");
    reveal_strlit("network={");
    reveal_strlit("\tssid=\"");
    reveal_strlit("\tpsk=\"");
    reveal_strlit("\tkey_mgmt=NONE");
    reveal_strlit("\"");
    reveal_strlit("}");
    law_nothing_is_injected(ssid);
    law_nothing_is_injected(psk);
    let a = escaped(ssid);
    let s = "\tssid=\""@ + a + "\""@;
    assert(s.last() == '"');
    assert forall|k: int| 0 <= k < s.len() implies #[trigger] s[k] != '\n' by {
        if "\tssid=\""@.len() <= k < "\tssid=\""@.len() + a.len() {
            assert(s[k] == a[k - "\tssid=\""@.len()]);
            assert(!Class::Control.holds(a[k - "\tssid=\""@.len()]));
        }
    }
    let b = escaped(psk);
    let t = "\tpsk=\""@ + b + "\""@;
    assert(t.last() == '"');
    assert forall|k: int| 0 <= k < t.len() implies #[trigger] t[k] != '\n' by {
        if "\tpsk=\""@.len() <= k < "\tpsk=\""@.len() + b.len() {
            assert(t[k] == b[k - "\tpsk=\""@.len()]);
            assert(!Class::Control.holds(b[k - "\tpsk=\""@.len()]));
        }
    }
}

proof fn lemma_block_text(ssid: Seq<char>, psk: Seq<char>)
    ensures
        network_block(ssid, psk) == "network={"@ + "\n"@ + (("\tssid=\""@ + escaped(ssid) + "\""@) + "\n"@ + (key_line(
            psk,
        ) + "\n"@ + ("}"@ + "\n"@ + Seq::<char>::empty()))),
{
    reveal_strlit("network={\n\tssid=\"");
    reveal_strlit("network={");
    reveal_strlit("\tssid=\"");
    reveal_strlit("\"\n\tkey_mgmt=NONE\n}\n");
    reveal_strlit("\tkey_mgmt=NONE");
    reveal_strlit("\"\n\tpsk=\"");
    reveal_strlit("\tpsk=\"");
    reveal_strlit("\"\n}\n");
    reveal_strlit("\"");
    reveal_strlit("}");
    reveal_strlit("\n");
    assert("network={\n\tssid=\""@ =~= "network={"@ + "\n"@ + "\tssid=\""@);
    assert("\"\n\tkey_mgmt=NONE\n}\n"@ =~= "\""@ + "\n"@ + "\tkey_mgmt=NONE"@ + "\n"@ + "}"@ + "\n"@);
    assert("\"\n\tpsk=\""@ =~= "\""@ + "\n"@ + "\tpsk=\""@);
    assert("\"\n}\n"@ =~= "\""@ + "\n"@ + "}"@ + "\n"@);
    assert(network_block(ssid, psk) =~= "network={"@ + "\n"@ + (("\tssid=\""@ + escaped(ssid) + "\""@) + "\n"@ + (key_line(
        psk,
    ) + "\n"@ + ("}"@ + "\n"@ + Seq::<char>::empty()))));
}

proof fn lemma_wpa_lines(ssid: Seq<char>, psk: Seq<char>)
    ensures
        lines("ctrl_interface=/var/run/wpa_supplicant\nupdate_config=1\n"@ + network_block(ssid, psk)) == seq![
            "ctrl_interface=/var/run/wpa_supplicant"@,
            "update_config=1"@,
            "network={"@,
            "\tssid=\""@ + escaped(ssid) + "\""@,
            key_line(psk),
            "}"@,
        ],
{
    reveal_strlit("ctrl_interface=/var/run/wpa_supplicant\nupdate_config=1\n");
    reveal_strlit("ctrl_interface=/var/run/wpa_supplicant");
    reveal_strlit("update_config=1");
    reveal_strlit("\n");
    lemma_wpa_ones(ssid, psk);
    lemma_block_text(ssid, psk);
    let nl = "\n"@;
    let e = Seq::<char>::empty();
    let t6 = "}"@ + nl + e;
    let t5 = key_line(psk) + nl + t6;
    let s = "\tssid=\""@ + escaped(ssid) + "\""@;
    let t4 = s + nl + t5;
    let t3 = "network={"@ + nl + t4;
    let t2 = "update_config=1"@ + nl + t3;
    lemma_line_in_front("}"@, e);
    lemma_line_in_front(key_line(psk), t6);
    lemma_line_in_front(s, t5);
    lemma_line_in_front("network={"@, t4);
    lemma_line_in_front("update_config=1"@, t3);
    lemma_line_in_front("ctrl_interface=/var/run/wpa_supplicant"@, t2);
    assert(lines(e) =~= seq![]);
    assert("ctrl_interface=/var/run/wpa_supplicant\nupdate_config=1\n"@ =~= "ctrl_interface=/var/run/wpa_supplicant"@ + nl
        + "update_config=1"@ + nl);
    assert("ctrl_interface=/var/run/wpa_supplicant\nupdate_config=1\n"@ + network_block(ssid, psk)
        =~= "ctrl_interface=/var/run/wpa_supplicant"@ + nl + t2);
    assert(lines("ctrl_interface=/var/run/wpa_supplicant"@ + nl + t2) =~= seq![
        "ctrl_interface=/var/run/wpa_supplicant"@,
        "update_config=1"@,
        "network={"@,
        s,
        key_line(psk),
        "}"@,
    ]);
}

/// A request to join is answered with the network's name, and a refused one with why
/// and the status of a bad request.
pub proof fn law_a_join_is_answered(ssid: Seq<char>, why: Seq<char>)
    ensures
        answered(Ok(ssid)).0 == 200 && field(answered(Ok(ssid)).1, "joining"@) == Some(JsonModel::Text(ssid)),
        answered(Err(why)).0 == 400 && field(answered(Err(why)).1, "error"@) == Some(JsonModel::Text(why)),
{
    lemma_members();
}

// ------------------------------------------------------------------------------- page

proof fn lemma_extension(name: Seq<char>, ext: Seq<char>)
    requires
        forall|k: int| 0 <= k < ext.len() ==> #[trigger] ext[k] != '.',
    ensures
        tail(name + "."@ + ext, Class::One('.')) == ext,
{
    reveal_strlit(".");
    let s = name + "."@ + ext;
    let cl = Class::One('.');
    lemma_last_before(s, cl, s.len() as int);
    let j = crate::text::last_before(s, cl, s.len() as int);
    assert(s[name.len() as int] == '.');
    assert(j == name.len() + 1) by {
        if j > name.len() + 1 {
            assert(s[j - 1] == ext[j - 1 - name.len() - 1]);
        }
    }
    assert(s.skip(j) =~= ext);
}

/// A browser is told what a file is by the ending of its name.
pub proof fn law_a_file_is_what_its_ending_says(name: Seq<char>)
    ensures
        mime_of(name + "."@ + "html"@) == "text/html; charset=utf-8"@,
        mime_of(name + "."@ + "js"@) == "application/javascript"@,
        mime_of(name + "."@ + "css"@) == "text/css"@,
        mime_of(name + "."@ + "json"@) == "application/json"@,
        mime_of(name + "."@ + "svg"@) == "image/svg+xml"@,
        mime_of(name + "."@ + "png"@) == "image/png"@,
        mime_of(name + "."@ + "woff2"@) == "font/woff2"@,
        mime_of(name + "."@ + "ico"@) == "image/x-icon"@,
{
    reveal_strlit("html");
    reveal_strlit("js");
    reveal_strlit("mjs");
    reveal_strlit("css");
    reveal_strlit("json");
    reveal_strlit("svg");
    reveal_strlit("png");
    reveal_strlit("woff2");
    reveal_strlit("ico");
    lemma_extension(name, "html"@);
    lemma_extension(name, "js"@);
    lemma_extension(name, "css"@);
    lemma_extension(name, "json"@);
    lemma_extension(name, "svg"@);
    lemma_extension(name, "png"@);
    lemma_extension(name, "woff2"@);
    lemma_extension(name, "ico"@);
    assert("html"@.len() == 4 && "js"@.len() == 2 && "mjs"@.len() == 3 && "css"@.len() == 3 && "json"@.len() == 4
        && "svg"@.len() == 3 && "png"@.len() == 3 && "woff2"@.len() == 5 && "ico"@.len() == 3);
    assert("html"@[0] == 'h' && "json"@[0] == 'j');
    assert("mjs"@[0] == 'm' && "css"@[0] == 'c' && "svg"@[0] == 's' && "png"@[0] == 'p' && "ico"@[0] == 'i');
}

/// A browser gets the packed bytes exactly when it takes them and there are any, and
/// is then told that they are packed; else it gets the file's own bytes and is not. It
/// is always told what the file is and how to ask for it again.
pub proof fn law_packed_bytes_are_said_to_be(a: AssetModel, gzip: bool)
    ensures
        file_answer(a, gzip) matches ServedModel::File { headers, body } && headers.contains(("content-type"@, a.mime))
            && headers.contains(("etag"@, a.etag)) && (headers.contains(("content-encoding"@, "gzip"@)) <==> gzip
            && a.gzip is Some) && body == (if gzip && a.gzip is Some {
            a.gzip->0
        } else {
            a.raw
        }),
{
    reveal_strlit("content-type");
    reveal_strlit("etag");
    reveal_strlit("cache-control");
    reveal_strlit("content-encoding");
    assert("content-type"@.len() == 12 && "etag"@.len() == 4 && "cache-control"@.len() == 13 && "content-encoding"@.len()
        == 16);
    let h = file_answer(a, gzip)->headers;
    assert(h[0] == ("content-type"@, a.mime));
    assert(h[1] == ("etag"@, a.etag));
    if gzip && a.gzip is Some {
        assert(h[h.len() - 1] == ("content-encoding"@, "gzip"@));
    } else {
        assert forall|i: int| 0 <= i < h.len() implies #[trigger] h[i] != ("content-encoding"@, "gzip"@) by {
            assert(h[i].0.len() != 16);
        }
    }
}

// ---------------------------------------------------------------------------- machine

/// An interface is told with its own name and address, and as connected exactly when
/// the kernel says so; the machine with its own names.
pub proof fn law_the_machine_is_told_as_it_is(
    i: IfaceModel,
    host: Option<Seq<char>>,
    kernel: Seq<char>,
    uptime: Seq<char>,
    load: Seq<char>,
    v: Seq<IfaceModel>,
    name: Seq<char>,
    out: Option<Seq<u8>>,
    carrier: Seq<char>,
)
    ensures
        field(iface_doc(i), "name"@) == Some(JsonModel::Text(i.name)),
        field(iface_doc(i), "ip"@) == Some(JsonModel::Text(i.ip)),
        field(iface_doc(i), "carrier"@) == Some(JsonModel::Bool(i.carrier)),
        iface_of(name, out, Some(carrier)).carrier <==> trim(carrier) == "1"@,
        !iface_of(name, out, None).carrier,
        iface_of(name, out, Some(carrier)).name == name,
        ({
            let d = system_doc(host, Some(kernel), uptime, Some(load), v);
            &&& field(d, "hostname"@) == Some(JsonModel::Text(hostname_of(host)))
            &&& field(d, "kernel"@) == Some(JsonModel::Text(trim(kernel)))
            &&& field(d, "uptime"@) == Some(JsonModel::Raw(uptime))
            &&& field(d, "loadavg"@) == Some(JsonModel::Text(trim(load)))
            &&& field(d, "interfaces"@) matches Some(JsonModel::List(l)) && l.len() == v.len() && forall|k: int|
                0 <= k < v.len() ==> #[trigger] l[k] == iface_doc(v[k])
        }),
{
    lemma_members();
    reveal_strlit("name");
    reveal_strlit("ip");
    reveal_strlit("carrier");
    reveal_strlit("hostname");
    reveal_strlit("kernel");
    reveal_strlit("uptime");
    reveal_strlit("loadavg");
    reveal_strlit("interfaces");
    assert("name"@.len() == 4 && "ip"@.len() == 2 && "carrier"@.len() == 7 && "hostname"@.len() == 8 && "kernel"@.len()
        == 6 && "uptime"@.len() == 6 && "loadavg"@.len() == 7 && "interfaces"@.len() == 10);
    assert("kernel"@[0] == 'k' && "uptime"@[0] == 'u');
}

// ----------------------------------------------------------------------------- events

/// A message tells what it is, its number, and what it carries under the name for it.
pub proof fn law_a_message_tells_what_it_carries(e: EnvelopeModel, ts: Seq<char>)
    ensures
        field(envelope_doc(e, ts), "seq"@) == Some(JsonModel::Number(e.seq)),
        field(envelope_doc(e, ts), "ts"@) == Some(JsonModel::Raw(ts)),
        e.msg matches MsgModel::State(path, value) ==> field(envelope_doc(e, ts), "type"@) == Some(
            JsonModel::Text("state"@),
        ) && field(envelope_doc(e, ts), "path"@) == Some(JsonModel::Text(path)) && field(envelope_doc(e, ts), "value"@)
            == Some(value),
        e.msg matches MsgModel::Event(topic, data) ==> field(envelope_doc(e, ts), "type"@) == Some(
            JsonModel::Text("event"@),
        ) && field(envelope_doc(e, ts), "topic"@) == Some(JsonModel::Text(topic)) && field(envelope_doc(e, ts), "data"@)
            == Some(data),
        e.msg matches MsgModel::Snapshot(state) ==> field(envelope_doc(e, ts), "type"@) == Some(
            JsonModel::Text("snapshot"@),
        ) && field(envelope_doc(e, ts), "state"@) == Some(state),
{
    reveal_strlit("seq");
    reveal_strlit("ts");
    reveal_strlit("type");
    reveal_strlit("path");
    reveal_strlit("value");
    reveal_strlit("topic");
    reveal_strlit("data");
    reveal_strlit("state");
    assert("seq"@.len() == 3 && "ts"@.len() == 2 && "type"@.len() == 4 && "path"@.len() == 4 && "value"@.len() == 5
        && "topic"@.len() == 5 && "data"@.len() == 4 && "state"@.len() == 5);
    assert("type"@[0] == 't' && "path"@[0] == 'p' && "data"@[0] == 'd');
    let o = envelope_doc(e, ts)->Object_0;
    lemma_third(o, "seq"@);
    lemma_third(o, "ts"@);
    lemma_third(o, "type"@);
    match e.msg {
        MsgModel::State(path, value) => {
            lemma_third(o, "path"@);
            lemma_third(o, "value"@);
        },
        MsgModel::Event(topic, data) => {
            lemma_third(o, "topic"@);
            lemma_third(o, "data"@);
        },
        MsgModel::Snapshot(state) => {
            lemma_third(o, "state"@);
        },
    }
}

/// The first of up to five members that has the key.
proof fn lemma_third(o: Seq<(Seq<char>, JsonModel)>, q: Seq<char>)
    requires
        4 <= o.len() <= 5,
    ensures
        member(o, q) == (if o[0].0 == q {
            Some(o[0].1)
        } else if o[1].0 == q {
            Some(o[1].1)
        } else if o[2].0 == q {
            Some(o[2].1)
        } else if o[3].0 == q {
            Some(o[3].1)
        } else if o.len() == 5 && o[4].0 == q {
            Some(o[4].1)
        } else {
            None
        }),
{
    reveal_with_fuel(member, 7);
    assert(o.skip(1).skip(1) =~= o.skip(2));
    assert(o.skip(2).skip(1) =~= o.skip(3));
    assert(o.skip(3).skip(1) =~= o.skip(4));
    if o.len() == 5 {
        assert(o.skip(4).skip(1) =~= o.skip(5));
    }
}

/// A network is joined only with a name and on a board with a radio; the radio is then
/// switched over, after the answer has gone out.
pub proof fn law_when_a_network_can_be_joined(iface: Seq<char>, ssid: Seq<char>, psk: Seq<char>)
    ensures
        join_of(iface, ssid, psk) is Ok <==> ssid.len() > 0 && iface.len() > 0,
        join_of(iface, ssid, psk) matches Ok(j) ==> j.command
            == "sleep 2; /etc/init.d/S41wifi-ap restart >/dev/null 2>&1"@,
{
}

/// The networks in reach are the lines that are not blank, without the blanks around
/// them.
pub proof fn law_each_line_is_a_network(ls: Seq<Seq<char>>, l: Seq<char>)
    ensures
        names_on(ls.push(l)) == (if trim(l).len() == 0 {
            names_on(ls)
        } else {
            names_on(ls).push(trim(l))
        }),
{
    assert(ls.push(l).drop_last() =~= ls);
}

/// The radio's name is what the board file says behind its key, quoted or not.
pub proof fn law_the_radio_is_what_the_file_says(v: Seq<char>, rest: Seq<Seq<char>>)
    requires
        bare(v),
    ensures
        first_iface(seq!["OHC_WIFI_IFACE="@ + v] + rest) == v,
        first_iface(seq![]) == Seq::<char>::empty(),
{
    reveal_strlit("OHC_WIFI_IFACE=");
    let k = "OHC_WIFI_IFACE="@;
    let l = k + v;
    assert(l[0] == 'O' && l.last() == v.last());
    lemma_trimmed(l);
    assert(l.subrange(0, k.len() as int) =~= k);
    assert(l.skip(k.len() as int) =~= v);
    assert((seq![l] + rest)[0] == l);
    lemma_bare(v);
}

proof fn lemma_placed(v: Seq<Seq<char>>, n: Seq<char>, q: Seq<char>)
    ensures
        placed(v, n).contains(q) <==> v.contains(q) || q == n,
    decreases v.len(),
{
    if v.len() == 0 {
        assert(placed(v, n)[0] == n);
    } else {
        let w = v.drop_last();
        lemma_placed(w, n, q);
        lemma_has_push(placed(w, n), v.last(), q);
        lemma_has_push(v, n, q);
        lemma_has_push(w, v.last(), q);
        assert(w.push(v.last()) =~= v);
    }
}

proof fn lemma_has_push(w: Seq<Seq<char>>, x: Seq<char>, q: Seq<char>)
    ensures
        w.push(x).contains(q) <==> w.contains(q) || q == x,
{
    let p = w.push(x);
    if w.contains(q) {
        let i = choose|i: int| 0 <= i < w.len() && w[i] == q;
        assert(p[i] == q);
    }
    assert(p[w.len() as int] == x);
}

/// Every interface is shown but the loopback.
pub proof fn law_every_interface_is_shown(names: Seq<Seq<char>>, q: Seq<char>)
    ensures
        ifaces_shown(names).contains(q) <==> names.contains(q) && q != "lo"@,
    decreases names.len(),
{
    if names.len() > 0 {
        let w = names.drop_last();
        law_every_interface_is_shown(w, q);
        lemma_placed(ifaces_shown(w), names.last(), q);
        lemma_has_push(w, names.last(), q);
        assert(w.push(names.last()) =~= names);
    }
}

/// The first line of a board file with a key gives its value, bare or between quotes.
pub proof fn law_a_key_gives_its_value(k: Seq<char>, v: Seq<char>, rest: Seq<Seq<char>>)
    requires
        bare(k),
        bare(v),
    ensures
        first_keyed(seq![k + "="@ + v] + rest, k) == Some(v),
{
    reveal_strlit("=");
    let l = k + "="@ + v;
    lemma_trimmed(l);
    assert(l.subrange(0, k.len() as int) =~= k);
    let t = "="@ + v;
    assert(l.skip(k.len() as int) =~= t);
    assert(t[0] == '=');
    assert(skip_class(t, Class::White, 0) == 0);
    assert(crate::text::trim_start(t, Class::White) =~= t);
    assert(t.subrange(0, 1) =~= "="@);
    assert(t.skip(1) =~= v);
    lemma_head_all(v, Class::One('#'));
    lemma_trimmed(v);
    lemma_untouched(v, Class::One('"'));
    assert((seq![l] + rest)[0] == l);
}

} // verus!
