//! Joining a Wi-Fi network from the setup access point.
//!
//! No wireless work happens here. The access-point script leaves the networks it
//! scanned in a file, and joining one is a station configuration to write and a
//! command to run: the script's restart, which switches the radio over.
use crate::env::{unquote, unquoted};
use crate::flasher::board::opt_str;
use crate::json::{object, put, text, with, Json, JsonModel};
use crate::text::{
    cat3, cat5, from_chars, lines, lines_of, slices, strings, strip_prefix, strip_prefix_str, to_chars, trim,
    trim_str, trimmed, without, Class,
};
use vstd::prelude::*;
use vstd::string::*;

verus! {

/// The interface on the first line that names one.
pub open spec fn first_iface(ls: Seq<Seq<char>>) -> Seq<char>
    decreases ls.len(),
{
    if ls.len() == 0 {
        seq![]
    } else {
        match strip_prefix(trim(ls[0]), "OHC_WIFI_IFACE="@) {
            Some(v) => unquoted(v),
            None => first_iface(ls.skip(1)),
        }
    }
}

/// The board's Wi-Fi interface out of its `board.env` text; empty when it has
/// none.
pub fn wifi_iface(env: &str) -> (r: String)
    ensures
        r@ == first_iface(lines(env@)),
{
    let chars = to_chars(env);
    let ls = lines_of(chars.as_slice());
    let ghost all = slices(ls@);
    let mut i: usize = 0;
    assert(all.skip(0) =~= all);
    while i < ls.len()
        invariant
            i <= ls@.len(),
            all == slices(ls@),
            first_iface(lines(env@)) == first_iface(all.skip(i as int)),
        decreases ls@.len() - i,
    {
        assert(all.skip(i as int)[0] == ls@[i as int]@);
        if let Some(v) = strip_prefix_str(trimmed(ls[i]), "OHC_WIFI_IFACE=") {
            return from_chars(unquote(v));
        }
        assert(all.skip(i as int).skip(1) =~= all.skip(i + 1));
        i += 1;
    }
    let e = String::new();
    assert(e@ =~= seq![]);
    e
}

/// The names on a list of lines: trimmed, and the empty ones left out.
pub open spec fn names_on(ls: Seq<Seq<char>>) -> Seq<Seq<char>>
    decreases ls.len(),
{
    if ls.len() == 0 {
        seq![]
    } else if trim(ls.last()).len() == 0 {
        names_on(ls.drop_last())
    } else {
        names_on(ls.drop_last()).push(trim(ls.last()))
    }
}

/// The networks the script scanned, out of the file it leaves.
pub fn scan_cache(file: &str) -> (r: Vec<String>)
    ensures
        strings(r@) == names_on(lines(file@)),
{
    let chars = to_chars(file);
    let ls = lines_of(chars.as_slice());
    let ghost all = slices(ls@);
    let mut out: Vec<String> = Vec::new();
    let mut i: usize = 0;
    assert(strings(out@) =~= names_on(all.take(0)));
    while i < ls.len()
        invariant
            i <= ls@.len(),
            all == slices(ls@),
            strings(out@) == names_on(all.take(i as int)),
        decreases ls@.len() - i,
    {
        assert(all.take(i + 1).drop_last() =~= all.take(i as int));
        assert(all.take(i + 1).last() == ls@[i as int]@);
        let t = trimmed(ls[i]);
        if t.len() > 0 {
            let ghost was = out@;
            out.push(from_chars(t));
            assert(strings(out@) =~= strings(was).push(t@));
        }
        i += 1;
    }
    assert(all.take(all.len() as int) =~= all);
    out
}

/// One character in a quoted string of the configuration.
pub open spec fn escape(c: char) -> Seq<char> {
    if Class::Control.holds(c) {
        seq![]
    } else if c == '\\' {
        seq!['\\', '\\']
    } else if c == '"' {
        seq!['\\', '"']
    } else {
        seq![c]
    }
}

/// A text in a quoted string of the configuration: control characters are
/// dropped, backslashes and quotes escaped.
pub open spec fn escaped(s: Seq<char>) -> Seq<char>
    decreases s.len(),
{
    if s.len() == 0 {
        seq![]
    } else {
        escaped(s.drop_last()) + escape(s.last())
    }
}

/// A text for a quoted string of the configuration.
pub fn wpa_str(s: &str) -> (r: String)
    ensures
        r@ == escaped(s@),
{
    let v = to_chars(s);
    let mut out = String::new();
    let mut i: usize = 0;
    assert(out@ =~= escaped(s@.take(0)));
    while i < v.len()
        invariant
            i <= v@.len(),
            v@ == s@,
            out@ == escaped(s@.take(i as int)),
        decreases v@.len() - i,
    {
        assert(s@.take(i + 1).drop_last() =~= s@.take(i as int));
        let c: char = v[i];
        let ghost was = out@;
        if !Class::Control.has(c) {
            if c == '\\' || c == '"' {
                out.push('\\');
            }
            out.push(c);
        }
        assert(out@ =~= was + escape(c));
        i += 1;
    }
    assert(s@.take(s@.len() as int) =~= s@);
    out
}

/// A quoted string read back, or `None` when it ends early: at a quote that is
/// not escaped, at a control character, or at a backslash with nothing behind it.
pub open spec fn unescaped(t: Seq<char>) -> Option<Seq<char>>
    decreases t.len(),
{
    if t.len() == 0 {
        Some(seq![])
    } else if t.len() >= 2 && t[t.len() - 2] == '\\' && (t.last() == '\\' || t.last() == '"') {
        match unescaped(t.take(t.len() - 2)) {
            Some(s) => Some(s.push(t.last())),
            None => None,
        }
    } else if t.last() == '\\' || t.last() == '"' || Class::Control.holds(t.last()) {
        None
    } else {
        match unescaped(t.drop_last()) {
            Some(s) => Some(s.push(t.last())),
            None => None,
        }
    }
}

/// Nothing is injected: whatever network name or password comes in, the string
/// written for it reads back whole as that text without its control characters.
/// No quote in it ends the string, and it holds no line break to start another
/// setting with.
pub proof fn law_nothing_is_injected(s: Seq<char>)
    ensures
        unescaped(escaped(s)) == Some(without(s, Class::Control)),
        forall|i: int| 0 <= i < escaped(s).len() ==> !Class::Control.holds(#[trigger] escaped(s)[i]),
    decreases s.len(),
{
    if s.len() == 0 {
        assert(without(s, Class::Control) =~= seq![]);
    } else {
        let p = s.drop_last();
        let c = s.last();
        law_nothing_is_injected(p);
        let t = escaped(s);
        if Class::Control.holds(c) {
            assert(t =~= escaped(p));
        } else if c == '\\' || c == '"' {
            assert(t.take(t.len() - 2) =~= escaped(p));
        } else {
            assert(t.drop_last() =~= escaped(p));
        }
    }
}

/// What joining a network takes: the file to write, what it holds, and the
/// command to start once the answer is on its way.
#[derive(Debug)]
pub struct Join {
    pub ssid: String,
    pub path: String,
    pub conf: String,
    pub command: &'static str,
}

pub ghost struct JoinModel {
    pub ssid: Seq<char>,
    pub path: Seq<char>,
    pub conf: Seq<char>,
    pub command: Seq<char>,
}

impl View for Join {
    type V = JoinModel;

    open spec fn view(&self) -> JoinModel {
        JoinModel { ssid: self.ssid@, path: self.path@, conf: self.conf@, command: self.command@ }
    }
}

/// The delay lets the answer reach the phone before the access point drops.
pub const RESTART: &'static str = "sleep 2; /etc/init.d/S41wifi-ap restart >/dev/null 2>&1";

/// The directory the configuration stands in.
pub const CONF_DIR: &'static str = "/etc/wpa_supplicant";

/// The `network` block of a station configuration; an open network has no
/// password.
pub open spec fn network_block(ssid: Seq<char>, psk: Seq<char>) -> Seq<char> {
    if psk.len() == 0 {
        "network={\n\tssid=\""@ + escaped(ssid) + "\"\n\tkey_mgmt=NONE\n}\n"@
    } else {
        "network={\n\tssid=\""@ + escaped(ssid) + "\"\n\tpsk=\""@ + escaped(psk) + "\"\n}\n"@
    }
}

/// What joining answers.
pub open spec fn join_of(iface: Seq<char>, ssid: Seq<char>, psk: Seq<char>) -> Result<JoinModel, Seq<char>> {
    if ssid.len() == 0 {
        Err("ssid required"@)
    } else if iface.len() == 0 {
        Err("this board has no wifi radio"@)
    } else {
        Ok(
            JoinModel {
                ssid,
                path: "/etc/wpa_supplicant/wpa_supplicant-"@ + iface + ".conf"@,
                conf: "ctrl_interface=/var/run/wpa_supplicant\nupdate_config=1\n"@ + network_block(ssid, psk),
                command: RESTART@,
            },
        )
    }
}

pub open spec fn joined_model(r: Result<Join, String>) -> Result<JoinModel, Seq<char>> {
    match r {
        Ok(j) => Ok(j@),
        Err(e) => Err(e@),
    }
}

/// The station configuration for an interface, or what keeps it from joining.
pub fn apply(iface: &str, ssid: &str, psk: &str) -> (r: Result<Join, String>)
    ensures
        joined_model(r) == join_of(iface@, ssid@, psk@),
{
    if to_chars(ssid).len() == 0 {
        return Err(String::from_str("ssid required"));
    }
    if to_chars(iface).len() == 0 {
        return Err(String::from_str("this board has no wifi radio"));
    }
    let name = wpa_str(ssid);
    let net: String = if to_chars(psk).len() == 0 {
        cat3("network={\n\tssid=\"", name.as_str(), "\"\n\tkey_mgmt=NONE\n}\n")
    } else {
        let key = wpa_str(psk);
        cat5("network={\n\tssid=\"", name.as_str(), "\"\n\tpsk=\"", key.as_str(), "\"\n}\n")
    };
    let conf = crate::text::cat2("ctrl_interface=/var/run/wpa_supplicant\nupdate_config=1\n", net.as_str());
    Ok(
        Join {
            ssid: String::from_str(ssid),
            path: cat3("/etc/wpa_supplicant/wpa_supplicant-", iface, ".conf"),
            conf,
            command: RESTART,
        },
    )
}

/// A request to join, as it comes in: the texts are trimmed, and no password is
/// an empty one.
pub fn connect(iface: &str, ssid: &str, psk: Option<&str>) -> (r: Result<Join, String>)
    ensures
        joined_model(r) == join_of(iface@, trim(ssid@), trim(crate::env::or_text(opt_str(psk), ""@))),
{
    let s = trim_str(ssid);
    let p = match psk {
        Some(p) => trim_str(p),
        None => trim_str(""),
    };
    apply(iface, s.as_str(), p.as_str())
}

/// The answer to a request to join: its status and its body.
pub open spec fn answered(r: Result<Seq<char>, Seq<char>>) -> (u16, JsonModel) {
    match r {
        Ok(ssid) => (200, JsonModel::Object(with(seq![], "joining"@, JsonModel::Text(ssid)))),
        Err(e) => (400, JsonModel::Object(with(seq![], "error"@, JsonModel::Text(e)))),
    }
}

/// The answer to a request to join, once the configuration is written and the
/// restart started, or with what went wrong.
pub fn answer(r: Result<&str, &str>) -> (a: (u16, Json))
    ensures
        (a.0, a.1@) == answered(match r {
            Ok(s) => Ok(s@),
            Err(e) => Err(e@),
        }),
{
    let mut o: Vec<crate::json::Member> = Vec::new();
    assert(crate::json::members(o@) =~= seq![]);
    match r {
        Ok(s) => {
            put(&mut o, "joining", text(s));
            (200, object(o))
        },
        Err(e) => {
            put(&mut o, "error", text(e));
            (400, object(o))
        },
    }
}

} // verus!
