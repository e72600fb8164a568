//! What a search of the network asks, and what it makes of the answers.
use crate::engine::picking::has_option;
use crate::flasher::board::Running;
use crate::flasher::loader::is_word;
use crate::num::{dec, digit_val, lemma_digits_plain, lemma_print_parse};
use crate::text::{
    contains, first_from, head, lemma_first_from, lemma_split_step, opt, split, split_once, starts_with, strip_prefix, tail,
    trim, words, Class,
};
use crate::transport::discovery::{
    address_commands, after_first, asked, control4_oui, everything, host_text, hosts_of, neighbour_commands, neighbours, nets_of,
    next_listing, ping_words, unconfirmed, usable_in, v4_on, FoundModel,
};
use crate::transport::ipv4::{address, dotted};
use crate::transport::probe::{file_number, openhc_identity, Evidence};
use crate::transport::sddp::{
    all_questions, field_of, field_on, heard, record, sddp_text, ssdp_text, tail_mac, QuestionModel, UnitModel,
};
use crate::transport::ssh::{candidate_logins, client_words, given_logins, LoginModel};
use crate::transport::wire::law_a_dotted_address_reads_back;
use vstd::prelude::*;
use vstd::string::*;
use vstd::utf8::*;

verus! {

// ------------------------------------------------------------------------------- ssh

/// A login is the client's last word, the user at the host, and before it come the
/// options; the password goes to sshpass, which then runs ssh, and only where there is
/// one.
pub proof fn law_the_client_logs_in_as_asked(m: LoginModel)
    ensures
        client_words(m).last() == m.user + "@"@ + m.host,
        m.password is None ==> client_words(m)[0] == "ssh"@,
        m.password matches Some(pw) ==> client_words(m)[0] == "sshpass"@ && has_option(client_words(m), "-p"@, pw)
            && client_words(m)[3] == "ssh"@,
        has_option(client_words(m), "-o"@, "StrictHostKeyChecking=no"@),
        has_option(client_words(m), "-o"@, "UserKnownHostsFile=/dev/null"@),
        has_option(client_words(m), "-o"@, "LogLevel=ERROR"@),
        has_option(client_words(m), "-o"@, "ConnectTimeout=8"@),
        has_option(
            client_words(m),
            "-o"@,
            "KexAlgorithms=+diffie-hellman-group1-sha1,diffie-hellman-group14-sha1"@,
        ),
        has_option(client_words(m), "-o"@, "HostKeyAlgorithms=+ssh-rsa"@),
        has_option(client_words(m), "-o"@, "PubkeyAcceptedAlgorithms=+ssh-rsa"@),
{
    let w = client_words(m);
    let k: int = if m.password is Some {
        4
    } else {
        1
    };
    if m.password is Some {
        assert(w[1] == "-p"@ && w[2] == m.password->0);
    }
    assert(w[k] == "-o"@ && w[k + 1] == "StrictHostKeyChecking=no"@);
    assert(w[k + 2] == "-o"@ && w[k + 3] == "UserKnownHostsFile=/dev/null"@);
    assert(w[k + 4] == "-o"@ && w[k + 5] == "LogLevel=ERROR"@);
    assert(w[k + 6] == "-o"@ && w[k + 7] == "ConnectTimeout=8"@);
    assert(w[k + 8] == "-o"@ && w[k + 9]
        == "KexAlgorithms=+diffie-hellman-group1-sha1,diffie-hellman-group14-sha1"@);
    assert(w[k + 10] == "-o"@ && w[k + 11] == "HostKeyAlgorithms=+ssh-rsa"@);
    assert(w[k + 12] == "-o"@ && w[k + 13] == "PubkeyAcceptedAlgorithms=+ssh-rsa"@);
}

/// Every login tried is at the host asked for; those with a given password are root's,
/// one for each password that is none of blanks, in the order given.
pub proof fn law_every_login_is_at_the_host(host: Seq<char>, pws: Seq<Seq<char>>, pw: Seq<char>, i: int)
    ensures
        0 <= i < candidate_logins(host).len() ==> candidate_logins(host)[i].host == host,
        given_logins(host, pws.push(pw)) == (if trim(pw).len() == 0 {
            given_logins(host, pws)
        } else {
            given_logins(host, pws).push(LoginModel { host, user: "root"@, password: Some(pw) })
        }),
{
    assert(pws.push(pw).drop_last() =~= pws);
}

// ------------------------------------------------------------------------------ ping

/// A ping is one packet to the address asked for, with the patience asked for: in
/// milliseconds where the system's own ping counts so, and else in whole seconds, no
/// shorter and by less than a second longer, and never none.
pub proof fn law_a_ping_is_as_patient_as_asked(os: Seq<char>, ip: Seq<char>, millis: nat)
    ensures
        ping_words(os, ip, millis).last() == ip,
        os == "windows"@ ==> has_option(ping_words(os, ip, millis), "-n"@, "1"@) && has_option(
            ping_words(os, ip, millis),
            "-w"@,
            dec(millis),
        ),
        os != "windows"@ ==> has_option(ping_words(os, ip, millis), "-c"@, "1"@),
        os == "macos"@ ==> has_option(ping_words(os, ip, millis), "-W"@, dec(millis)),
        os != "windows"@ && os != "macos"@ ==> exists|s: nat| #[trigger]
            has_option(ping_words(os, ip, millis), "-W"@, dec(s)) && s >= 1 && millis <= 1000 * s && (s == 1 || 1000 * s
                < millis + 1000),
{
    reveal_strlit("windows");
    reveal_strlit("macos");
    let w = ping_words(os, ip, millis);
    assert("windows"@.len() == 7 && "macos"@.len() == 5);
    assert(w[1] == "1"@);
    if os == "windows"@ {
        assert(w[0] == "-n"@ && w[2] == "-w"@ && w[3] == dec(millis));
    } else if os == "macos"@ {
        assert(w[0] == "-c"@ && w[2] == "-W"@ && w[3] == dec(millis));
    } else {
        let s: nat = if millis == 0 {
            1
        } else {
            (millis + 999) / 1000
        };
        assert(w[0] == "-c"@ && w[2] == "-W"@ && w[3] == dec(s));
        assert(has_option(w, "-W"@, dec(s)));
    }
}

/// The neighbours are asked of arp and then of ip, and the addresses of ifconfig, of ip
/// and of ipconfig.
pub proof fn law_the_listings_are_asked_in_turn()
    ensures
        neighbour_commands().len() == 2,
        neighbour_commands()[0] == seq!["arp"@, "-a"@],
        neighbour_commands()[1] == seq!["ip"@, "neigh"@],
        address_commands().len() == 3,
        address_commands()[0] == seq!["ifconfig"@],
        address_commands()[1] == seq!["ip"@, "-4"@, "-o"@, "addr"@],
        address_commands()[2] == seq!["ipconfig"@],
{
}

// -------------------------------------------------------------------------- addresses

/// An address is used exactly when it was listed, is no loopback and is not unset; each
/// once.
pub proof fn law_usable_addresses_are_kept(v: Seq<Seq<u8>>, a: Seq<u8>)
    requires
        forall|i: int| 0 <= i < v.len() ==> (#[trigger] v[i]).len() == 4,
    ensures
        usable_in(v).contains(a) <==> v.contains(a) && a[0] != 127 && a != seq![0u8, 0, 0, 0],
        forall|i: int, j: int|
            0 <= i < j < usable_in(v).len() ==> #[trigger] usable_in(v)[i] != #[trigger] usable_in(v)[j],
    decreases v.len(),
{
    if v.len() > 0 {
        let w = v.drop_last();
        law_usable_addresses_are_kept(w, a);
        let out = usable_in(w);
        lemma_pushed(w, v.last(), a);
        assert(v =~= w.push(v.last()));
        lemma_pushed(out, v.last(), a);
    }
}

proof fn lemma_pushed(w: Seq<Seq<u8>>, x: Seq<u8>, a: Seq<u8>)
    ensures
        w.push(x).contains(a) <==> w.contains(a) || a == x,
{
    let p = w.push(x);
    if w.contains(a) {
        let i = choose|i: int| 0 <= i < w.len() && w[i] == a;
        assert(p[i] == a);
    }
    assert(p[w.len() as int] == x);
}

/// A network is searched exactly when an address that is no loopback is in it; each
/// once.
pub proof fn law_every_network_is_searched(v: Seq<Seq<u8>>, net: Seq<u8>)
    requires
        forall|i: int| 0 <= i < v.len() ==> (#[trigger] v[i]).len() == 4,
    ensures
        nets_of(v).contains(net) <==> exists|i: int|
            0 <= i < v.len() && (#[trigger] v[i])[0] != 127 && v[i].take(3) == net,
        forall|i: int, j: int| 0 <= i < j < nets_of(v).len() ==> #[trigger] nets_of(v)[i] != #[trigger] nets_of(v)[j],
    decreases v.len(),
{
    if v.len() > 0 {
        let w = v.drop_last();
        law_every_network_is_searched(w, net);
        let out = nets_of(w);
        let last = v.last();
        lemma_pushed(out, last.take(3), net);
        assert(v[v.len() - 1] == last);
        if exists|i: int| 0 <= i < w.len() && (#[trigger] w[i])[0] != 127 && w[i].take(3) == net {
            let i = choose|i: int| 0 <= i < w.len() && (#[trigger] w[i])[0] != 127 && w[i].take(3) == net;
            assert(v[i] == w[i]);
        }
        if exists|i: int| 0 <= i < v.len() && (#[trigger] v[i])[0] != 127 && v[i].take(3) == net {
            let i = choose|i: int| 0 <= i < v.len() && (#[trigger] v[i])[0] != 127 && v[i].take(3) == net;
            if i < w.len() {
                assert(w[i] == v[i]);
            }
        }
    }
}

/// Every host of a network is asked, from the first to the last but the broadcast, by
/// an address that reads back as that host's.
pub proof fn law_every_host_is_asked(nets: Seq<Seq<u8>>, net: Seq<u8>, h: u8)
    requires
        net.len() == 3,
        1 <= h <= 254,
    ensures
        hosts_of(nets.push(net)).contains(dotted(net.push(h))),
        address(dotted(net.push(h))) == Some(net.push(h)),
        hosts_of(nets.push(net)).len() == hosts_of(nets).len() + 254,
        !hosts_of(seq![net]).contains(dotted(net.push(0))),
        !hosts_of(seq![net]).contains(dotted(net.push(255))),
{
    law_a_dotted_address_reads_back(net.push(h));
    law_a_dotted_address_reads_back(net.push(0));
    law_a_dotted_address_reads_back(net.push(255));
    assert(nets.push(net).drop_last() =~= nets);
    let all = hosts_of(nets.push(net));
    let k = hosts_of(nets).len() + h - 1;
    assert(host_text(net, h as int) == dotted(net.push(h)));
    assert(all[k] == host_text(net, h as int));
    let one = hosts_of(seq![net]);
    reveal_with_fuel(hosts_of, 2);
    assert(seq![net].drop_last() =~= seq![]);
    assert(one.len() == 254);
    assert forall|i: int| 0 <= i < one.len() implies #[trigger] one[i] != dotted(net.push(0)) && one[i] != dotted(
        net.push(255),
    ) by {
        let g = (i + 1) as u8;
        law_a_dotted_address_reads_back(net.push(g));
        assert(one[i] == host_text(net, i + 1));
        assert(host_text(net, i + 1) == dotted(net.push(g)));
        assert(net.push(g)[3] == g && net.push(0)[3] == 0 && net.push(255)[3] == 255);
    }
}

/// Only addresses that a host can have stand among the neighbours.
pub proof fn law_a_neighbour_is_a_host(ls: Seq<Seq<char>>, ip: Seq<char>)
    requires
        neighbours(ls).dom().contains(ip),
    ensures
        neighbours(ls)[ip] != "ff:ff:ff:ff:ff:ff"@,
        neighbours(ls)[ip] != "00:00:00:00:00:00"@,
        !starts_with(neighbours(ls)[ip], "01:00:5e"@),
    decreases ls.len(),
{
    if ls.len() > 0 {
        let w = neighbours(ls.drop_last());
        if w.dom().contains(ip) {
            law_a_neighbour_is_a_host(ls.drop_last(), ip);
        }
    }
}

/// A box is taken for one of the maker's by the maker's own address prefix, written
/// with or without leading zeros, or by saying that it is the director.
pub proof fn law_the_makers_boxes_are_known(f: FoundModel)
    ensures
        f.is_control4() <==> f.is_director || (f.mac matches Some(m) && (starts_with(m, "00:0f:ff"@) || starts_with(
            m,
            "0:f:ff"@,
        ))),
{
}

// ------------------------------------------------------------------------- questions

/// Both protocols are asked, each on its own port and in its own words: of the group,
/// and of each address that is asked by itself.
pub proof fn law_both_protocols_are_asked(local: Seq<u8>, also: Seq<Seq<u8>>, a: Seq<u8>)
    ensures
        all_questions(local, seq![]) == seq![
            QuestionModel { ip: seq![239u8, 255, 255, 250], port: 1900, bytes: encode_utf8(ssdp_text()) },
            QuestionModel { ip: seq![239u8, 255, 255, 250], port: 1902, bytes: encode_utf8(sddp_text(local)) },
        ],
        all_questions(local, also.push(a)) == all_questions(local, also) + seq![
            QuestionModel { ip: a, port: 1900, bytes: encode_utf8(ssdp_text()) },
            QuestionModel { ip: a, port: 1902, bytes: encode_utf8(sddp_text(a)) },
        ],
{
    assert(also.push(a).drop_last() =~= also);
    assert(all_questions(local, also.push(a)) =~= all_questions(local, also) + seq![
        QuestionModel { ip: a, port: 1900, bytes: encode_utf8(ssdp_text()) },
        QuestionModel { ip: a, port: 1902, bytes: encode_utf8(sddp_text(a)) },
    ]);
}

// --------------------------------------------------------------------------- answers

/// Each thing a box says of itself is taken from the line that has its name. The box is
/// the director when its kind is a controller's. What it is called, and its hardware
/// address, come from the host line.
pub proof fn law_each_line_is_its_own_thing(text: Seq<char>, ip: Seq<char>)
    requires
        contains(text, "SDDP/1.0"@),
        record(text, ip) is Some,
    ensures
        ({
            let u = record(text, ip)->0;
            &&& u.ip == ip
            &&& u.kind == field_of(text, "Type"@)
            &&& u.model == field_of(text, "Model"@)
            &&& u.manufacturer == field_of(text, "Manufacturer"@)
            &&& u.driver == field_of(text, "Driver"@)
            &&& u.config_url == field_of(text, "Config-URL"@)
            &&& u.is_director <==> (u.kind matches Some(k) && contains(k, "controller"@))
            &&& u.mac == (match field_of(text, "Host"@) {
                Some(h) => tail_mac(h),
                None => None,
            })
            &&& !starts_with(text, "NOTIFY OFFLINE"@)
            &&& u.kind is Some || u.model is Some
        }),
{
}

/// A line gives its value, without the quotes around it, to whoever asks for its name.
pub proof fn law_a_line_gives_its_value(k: Seq<char>, v: Seq<char>)
    requires
        crate::readers::bare(k),
        crate::readers::bare(v),
        forall|i: int| 0 <= i < k.len() ==> #[trigger] k[i] != ':',
    ensures
        field_on(k + ": \""@ + v + "\""@, k) == Some(v),
{
    reveal_strlit(": \"");
    reveal_strlit("\"");
    let s = k + ": \""@ + v + "\""@;
    let cl = Class::One(':');
    crate::text::lemma_first_from(s, cl, 0);
    let j = crate::text::first_from(s, cl, 0);
    assert(s[k.len() as int] == ':');
    assert(j == k.len()) by {
        if j < k.len() {
            assert(s[j] == k[j]);
        }
    }
    let q = "\""@ + v + "\""@;
    let sp = seq![' '] + q;
    assert(s.take(j) =~= k);
    assert(s.skip(j + 1) =~= sp);
    assert(split_once(s, cl) == Some((k, sp)));
    crate::engine::shell::lemma_trimmed(k);
    lemma_spaced(q);
    crate::readers::lemma_unquote(v);
    crate::engine::shell::lemma_trimmed(v);
}

proof fn lemma_spaced(q: Seq<char>)
    requires
        q.len() > 0,
        !crate::text::white(q[0]),
        !crate::text::white(q.last()),
    ensures
        trim(seq![' '] + q) == q,
{
    let s = seq![' '] + q;
    reveal_with_fuel(crate::text::skip_class, 3);
    assert(s[0] == ' ' && s[1] == q[0] && s.last() == q.last());
    assert(crate::text::skip_class(s, Class::White, 0) == 1);
    assert(crate::text::unskip_class(s, Class::White, 1, s.len() as int) == s.len());
    assert(trim(s) =~= q);
}

/// What a box has already said is kept, and what it says later fills the gaps; it is
/// the director once it has said so.
pub proof fn law_later_answers_fill_the_gaps(
    m: Map<Seq<char>, UnitModel>,
    text: Seq<char>,
    ip: Seq<char>,
    other: Seq<char>,
)
    requires
        m.dom().contains(ip),
        record(text, ip) is Some,
    ensures
        ({
            let u = record(text, ip)->0;
            let now = heard(m, text, ip)[ip];
            &&& m[ip].mac is Some ==> now.mac == m[ip].mac
            &&& m[ip].mac is None ==> now.mac == u.mac
            &&& m[ip].name is Some ==> now.name == m[ip].name
            &&& m[ip].name is None ==> now.name == u.name
            &&& m[ip].kind is Some ==> now.kind == m[ip].kind
            &&& m[ip].kind is None ==> now.kind == u.kind
            &&& m[ip].model is Some ==> now.model == m[ip].model
            &&& m[ip].model is None ==> now.model == u.model
            &&& m[ip].manufacturer is Some ==> now.manufacturer == m[ip].manufacturer
            &&& m[ip].manufacturer is None ==> now.manufacturer == u.manufacturer
            &&& m[ip].driver is Some ==> now.driver == m[ip].driver
            &&& m[ip].driver is None ==> now.driver == u.driver
            &&& m[ip].config_url is Some ==> now.config_url == m[ip].config_url
            &&& m[ip].config_url is None ==> now.config_url == u.config_url
            &&& now.is_director == (m[ip].is_director || u.is_director)
            &&& now.ip == m[ip].ip
        }),
        other != ip && m.dom().contains(other) ==> heard(m, text, ip).dom().contains(other) && heard(m, text, ip)[other]
            == m[other],
{
}

/// Each box listed says how it was found, and what is listed of it is its own.
pub proof fn law_a_listed_box_says_how_it_was_found(
    sddp: Map<Seq<char>, UnitModel>,
    arp: Map<Seq<char>, Seq<char>>,
    alive: Seq<Seq<char>>,
    ip: Seq<char>,
)
    requires
        everything(sddp, arp, alive).dom().contains(ip),
        sddp.dom().contains(ip) ==> sddp[ip].ip == ip,
    ensures
        ({
            let f = everything(sddp, arp, alive)[ip];
            &&& f.ip == ip
            &&& f.via.contains("sddp"@) <==> sddp.dom().contains(ip)
            &&& f.via.contains("arp"@) <==> arp.dom().contains(ip)
            &&& sddp.dom().contains(ip) ==> f.name == sddp[ip].name && f.kind == sddp[ip].kind && f.model
                == sddp[ip].model && f.manufacturer == sddp[ip].manufacturer && f.config_url == sddp[ip].config_url
            &&& !sddp.dom().contains(ip) ==> f.mac == Some(arp[ip]) && control4_oui(arp[ip]) && !f.is_director
        }),
{
    reveal_strlit("sddp");
    reveal_strlit("arp");
    assert("sddp"@.len() == 4 && "arp"@.len() == 3);
    let f = everything(sddp, arp, alive)[ip];
    if sddp.dom().contains(ip) {
        assert(f.via[0] == "sddp"@);
        if arp.dom().contains(ip) {
            assert(f.via[1] == "arp"@);
        }
    } else {
        assert(f.via[0] == "arp"@);
    }
}

/// A listing is asked for while the earlier ones showed nothing, and none after the
/// last.
pub proof fn law_a_listing_is_asked_for_while_nothing_is_known(
    commands: Seq<Seq<Seq<char>>>,
    tried: int,
    rows: nat,
)
    requires
        0 <= tried,
    ensures
        next_listing(commands, tried, rows) is Some <==> rows == 0 && tried < commands.len(),
        rows == 0 && tried < commands.len() ==> next_listing(commands, tried, rows) == Some(commands[tried]),
{
}

/// Every neighbour of the maker's is asked by itself, and every one of them that did not
/// answer is looked at again; no other is.
pub proof fn law_the_makers_neighbours_are_asked(
    table: Map<Seq<char>, Seq<char>>,
    answered: Set<Seq<char>>,
    keys: Seq<Seq<char>>,
    k: Seq<char>,
)
    ensures
        address(k) is Some && control4_oui(table[k]) ==> asked(table, keys.push(k)) == asked(table, keys).push(
            address(k)->0,
        ),
        address(k) is None || !control4_oui(table[k]) ==> asked(table, keys.push(k)) == asked(table, keys),
        unconfirmed(table, answered, keys.push(k)) == (if control4_oui(table[k]) && !answered.contains(k) {
            unconfirmed(table, answered, keys).push(k)
        } else {
            unconfirmed(table, answered, keys)
        }),
{
    assert(keys.push(k).drop_last() =~= keys);
}

/// A number in one of the vendor's files is that number, whatever blanks are around it.
pub proof fn law_a_number_is_read_from_its_file(n: u8)
    ensures
        file_number(Some(dec(n as nat) + "\n"@)) == Some(n),
        file_number(Some(dec(n as nat))) == Some(n),
        file_number(None) is None,
{
    reveal_strlit("\n");
    lemma_print_parse(n as nat, 10, 255);
    lemma_digits_plain(n as nat, 10);
    let d = dec(n as nat);
    assert(!crate::text::white(d[0]) && !crate::text::white(d[d.len() - 1]));
    crate::engine::shell::lemma_trimmed(d);
    let s = d + "\n"@;
    assert(s[0] == d[0] && s[s.len() - 1] == '\n' && s[s.len() - 2] == d[d.len() - 1]);
    reveal_with_fuel(crate::text::unskip_class, 3);
    assert(crate::text::skip_class(s, Class::White, 0) == 0);
    assert(crate::text::unskip_class(s, Class::White, 0, s.len() as int) == d.len());
    assert(trim(s) =~= d);
}

/// openHC's own file is believed first, then the vendor's numbers, then the firmware's
/// names; a box with openHC's file runs openHC, and one with the vendor's files the
/// vendor's system.
pub proof fn law_the_surest_evidence_is_believed(e: Evidence)
    ensures
        openhc_identity(opt(e.board_env)) matches Some(i) ==> e.identity() == i,
        openhc_identity(opt(e.board_env)) is None && e.stock_identity() is Some ==> e.identity() == e.stock_identity()->0,
        openhc_identity(opt(e.board_env)) is None && e.stock_identity() is None && e.smbios_identity() is Some
            ==> e.identity() == e.smbios_identity()->0,
        openhc_identity(opt(e.board_env)) is None && e.stock_identity() is None && e.smbios_identity() is None
            ==> e.identity().board is None && e.identity().candidates.len() == 0,
        e.board_env is Some ==> e.running() == Running::Openhc,
        e.board_env is None && e.c4_name is Some ==> e.running() == Running::Stock,
        e.stock_identity() matches Some(i) ==> i.running == Running::Stock,
        e.smbios_identity() matches Some(i) ==> i.running == e.running(),
{
}

/// The first word of a text that begins with one.
proof fn lemma_first_word(w: Seq<char>, rest: Seq<char>)
    requires
        is_word(w),
    ensures
        words(w + " "@ + rest).len() > 0,
        words(w + " "@ + rest)[0] == w,
{
    reveal_strlit(" ");
    let s = w + " "@ + rest;
    let cl = Class::White;
    let j = w.len() as int;
    assert(s[j] == ' ');
    assert forall|k: int| 0 <= k < j implies !cl.holds(#[trigger] s[k]) by {
        assert(s[k] == w[k]);
    }
    lemma_split_step(s, cl, 0, j);
    assert(s.subrange(0, j) =~= w);
    assert(split(s, cl)[0] == w);
}

/// An address is read off each of the listings: behind `inet` at the start of a line,
/// behind `inet` within a line, with the length of its network, and behind the colon of
/// a line that says what it is.
pub proof fn law_an_address_is_read_off_the_listing(
    line: Seq<char>,
    a: Seq<u8>,
    bits: nat,
    rest: Seq<char>,
)
    requires
        a.len() == 4,
        trim(line) == line,
    ensures
        strip_prefix(line, "inet "@) == Some(dotted(a) + " "@ + rest) ==> v4_on(line) == Some(a),
        strip_prefix(line, "inet "@) is None && contains(line, " inet "@) && after_first(line, " inet "@) == dotted(a) + "/"@
            + dec(bits) + " "@ + rest ==> v4_on(line) == Some(a),
        strip_prefix(line, "inet "@) is None && !contains(line, " inet "@) && (contains(line, "IPv4"@) || contains(
            line,
            "IP Address"@,
        )) && trim(tail(line, Class::One(':'))) == dotted(a) ==> v4_on(line) == Some(a),
{
    law_a_dotted_address_reads_back(a);
    let d = dotted(a);
    lemma_first_word(d, rest);
    lemma_no_slash(a);
    lemma_head_plain(d);
    crate::engine::shell::lemma_trimmed(d);
    reveal_strlit("/");
    let c = d + "/"@ + dec(bits);
    lemma_digits_plain(bits, 10);
    assert forall|k: int| 0 <= k < c.len() implies !crate::text::white(#[trigger] c[k]) by {
        if k < d.len() {
            assert(c[k] == d[k]);
        } else if k > d.len() {
            assert(c[k] == dec(bits)[k - d.len() - 1]);
        }
    }
    lemma_first_word(c, rest);
    lemma_first_from(c, Class::One('/'), 0);
    let j = first_from(c, Class::One('/'), 0);
    assert(c[d.len() as int] == '/');
    assert(j == d.len()) by {
        if j < d.len() {
            assert(c[j] == d[j]);
        }
    }
    assert(head(c, Class::One('/')) =~= d);
}

proof fn lemma_head_plain(d: Seq<char>)
    requires
        forall|k: int| 0 <= k < d.len() ==> #[trigger] d[k] != '/',
    ensures
        head(d, Class::One('/')) == d,
{
    lemma_first_from(d, Class::One('/'), 0);
    assert(head(d, Class::One('/')) =~= d);
}

proof fn lemma_no_slash(a: Seq<u8>)
    requires
        a.len() == 4,
    ensures
        forall|k: int| 0 <= k < dotted(a).len() ==> #[trigger] dotted(a)[k] != '/',
{
    reveal_strlit(".");
    lemma_digits_plain(a[0] as nat, 10);
    lemma_digits_plain(a[1] as nat, 10);
    lemma_digits_plain(a[2] as nat, 10);
    lemma_digits_plain(a[3] as nat, 10);
    assert(digit_val('/') >= 10);
    let d0 = dec(a[0] as nat);
    let d1 = dec(a[1] as nat);
    let d2 = dec(a[2] as nat);
    let d3 = dec(a[3] as nat);
    let s = dotted(a);
    assert forall|k: int| 0 <= k < s.len() implies #[trigger] s[k] != '/' by {
        let i1 = d0.len() as int;
        let i2 = i1 + 1 + d1.len();
        let i3 = i2 + 1 + d2.len();
        if k < i1 {
            assert(s[k] == d0[k] && digit_val(d0[k]) < 10);
        } else if i1 < k < i2 {
            assert(s[k] == d1[k - i1 - 1] && digit_val(d1[k - i1 - 1]) < 10);
        } else if i2 < k < i3 {
            assert(s[k] == d2[k - i2 - 1] && digit_val(d2[k - i2 - 1]) < 10);
        } else if i3 < k {
            assert(s[k] == d3[k - i3 - 1] && digit_val(d3[k - i3 - 1]) < 10);
        }
    }
}

} // verus!
