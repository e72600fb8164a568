use dhcproto::v4::{self, Message, MessageType};
use dhcproto::{Decodable, Decoder, Encodable, Encoder};
use openhc::flasher::cefdk;
use openhc::transport::bootp::{
    self, bogus_bootfile, build_cookie_reply, cookie, magic, parse_bootrequest, BOOTREPLY, BOOTREQUEST, HLEN_ETHER,
    HTYPE_ETHER, OPT_END, OPT_PAD, OPT_VENDOR_CLASS,
};
use openhc::transport::discovery::{has_control4_oui, looks_like_mac, norm_mac, parse_arp, parse_v4, ping_args};
use openhc::transport::netboot::{
    self, answer, build_reply, interface_holding, judge, staged_name, Config, DhcpRequest, DhcpTurn, Verdict, ACK,
    BOOT_REPLY, OFFER, REQUEST,
};
use openhc::transport::sddp::{mac_from_tail, parse, sddp_search, ssdp_msearch, strip_mac_tail};
use openhc::transport::serial::{split_complete_lines, take_pending};
use openhc::transport::tftp::{
    data_packet, is_unsafe_name, parse_ack, parse_request, Request, BLOCK, OP_ACK, OP_DATA, OP_RRQ, OP_WRQ,
};

fn sample_reply() -> Vec<u8> {
    build_cookie_reply(
        &[0xde, 0xad, 0xbe, 0xef],
        &[0x00, 0x1b, 0x22, 0x33, 0x44, 0x55],
        [10, 0, 0, 200],
        [10, 0, 0, 106],
    )
}

#[test]
fn reply_is_a_bootreply_for_ethernet() {
    let p = sample_reply();
    assert_eq!(p[0], BOOTREPLY, "op must be 2 (reply)");
    assert_eq!(p[1], HTYPE_ETHER);
    assert_eq!(p[2], HLEN_ETHER);
}

#[test]
fn xid_and_mac_are_echoed_back() {
    let p = sample_reply();
    assert_eq!(&p[4..8], &[0xde, 0xad, 0xbe, 0xef], "xid must match the request");
    assert_eq!(&p[28..34], &[0x00, 0x1b, 0x22, 0x33, 0x44, 0x55], "chaddr = client MAC");
}

#[test]
fn yiaddr_is_the_offer_and_siaddr_is_the_server() {
    let p = sample_reply();
    assert_eq!(&p[16..20], &[10, 0, 0, 200], "yiaddr = offered IP");
    assert_eq!(&p[20..24], &[10, 0, 0, 106], "siaddr = TFTP server");
}

#[test]
fn the_magic_cookie_is_present_at_the_start_of_options() {
    let p = sample_reply();
    assert_eq!(&p[236..240], &magic(), "options begin with the DHCP magic cookie");
}

#[test]
fn option_60_carries_the_cookie_with_a_trailing_nul_before_end() {
    let p = sample_reply();
    let opts = &p[240..];
    assert_eq!(opts[0], OPT_VENDOR_CLASS, "first option is vendor class (60)");
    assert_eq!(opts[1] as usize, cookie().len(), "length is the 9-char cookie");
    assert_eq!(&cookie(), b"C4_COOKIE");
    assert_eq!(&opts[2..2 + cookie().len()], &cookie(), "the cookie string");
    let after = 2 + cookie().len();
    assert_eq!(opts[after], OPT_PAD, "a NUL (PAD) is the cookie's 10th byte");
    assert_eq!(opts[after + 1], OPT_END, "then END — not straight after the 9 chars");
}

#[test]
fn a_bogus_boot_filename_is_set_so_autofetch_fails() {
    let p = sample_reply();
    assert_eq!(&p[108..108 + bogus_bootfile().len()], &bogus_bootfile());
}

#[test]
fn parse_bootrequest_reads_xid_and_mac() {
    let mut pkt = vec![0u8; 44];
    pkt[0] = BOOTREQUEST;
    pkt[1] = HTYPE_ETHER;
    pkt[2] = HLEN_ETHER;
    pkt[4..8].copy_from_slice(&[1, 2, 3, 4]);
    pkt[28..34].copy_from_slice(&[0xaa, 0xbb, 0xcc, 0xdd, 0xee, 0xff]);
    let req = parse_bootrequest(&pkt).expect("valid request");
    assert_eq!(req.xid, [1, 2, 3, 4]);
    assert_eq!(req.mac, [0xaa, 0xbb, 0xcc, 0xdd, 0xee, 0xff]);
}

#[test]
fn parse_bootrequest_rejects_non_requests() {
    let mut reply = vec![0u8; 44];
    reply[0] = BOOTREPLY;
    reply[1] = HTYPE_ETHER;
    reply[2] = HLEN_ETHER;
    assert!(parse_bootrequest(&reply).is_none(), "must not answer another server's reply");
    assert!(parse_bootrequest(&[0u8; 10]).is_none(), "too short");
}

#[test]
fn mac_parses_both_separators_and_any_case() {
    assert_eq!(bootp::parse_mac("00:1b:22:33:44:55"), Some([0x00, 0x1b, 0x22, 0x33, 0x44, 0x55]));
    assert_eq!(bootp::parse_mac("AA-BB-CC-DD-EE-FF"), Some([0xaa, 0xbb, 0xcc, 0xdd, 0xee, 0xff]));
    assert_eq!(bootp::parse_mac("001b22334455"), None, "no separators is not a MAC");
    assert_eq!(bootp::parse_mac("00:1b:22:33:44"), None, "five octets is not a MAC");
    assert_eq!(bootp::parse_mac("zz:1b:22:33:44:55"), None, "non-hex is rejected");
}

const WINDOWS_ARP: &str = "\r
Interface: 192.168.1.146 --- 0xa\r
  Internet Address      Physical Address      Type\r
  192.168.1.1           00-1a-2b-3c-4d-5e     dynamic\r
  192.168.1.172         00-0f-ff-91-63-cb     dynamic\r
  239.255.255.250       01-00-5e-7f-ff-fa     static\r
  255.255.255.255       ff-ff-ff-ff-ff-ff     static\r
";

const MACOS_ARP: &str = "\
? (10.0.0.112) at 0:f:ff:57:b9:78 on en0 ifscope [ethernet]
? (10.0.0.1) at 1c:limit:bad on en0 [ethernet]
? (192.168.1.172) at 0:f:ff:91:63:cb on en1 ifscope [ethernet]
";

const LINUX_NEIGH: &str = "\
10.0.0.112 dev eth0 lladdr 00:0f:ff:57:b9:78 REACHABLE
10.0.0.1 dev eth0 lladdr 1c:3b:f3:aa:bb:cc STALE
";

#[test]
fn windows_arp_uses_dashes_and_lists_rows_that_are_not_hosts() {
    let t = parse_arp(WINDOWS_ARP);
    assert_eq!(t.get("192.168.1.172").map(String::as_str), Some("00:0f:ff:91:63:cb"));
    assert_eq!(t.get("192.168.1.1").map(String::as_str), Some("00:1a:2b:3c:4d:5e"));
    assert!(!t.contains_key("255.255.255.255"));
    assert!(!t.contains_key("239.255.255.250"));
    assert!(!t.contains_key("192.168.1.146"));
}

#[test]
fn macos_arp_zero_pads_and_linux_neigh_parses() {
    let t = parse_arp(MACOS_ARP);
    assert_eq!(t.get("10.0.0.112").map(String::as_str), Some("00:0f:ff:57:b9:78"));
    assert!(has_control4_oui(t.get("10.0.0.112").unwrap()));

    let t = parse_arp(LINUX_NEIGH);
    assert_eq!(t.get("10.0.0.112").map(String::as_str), Some("00:0f:ff:57:b9:78"));
}

#[test]
fn ipconfig_is_the_only_way_to_get_a_subnet_on_windows() {
    let out = parse_v4(
        "\r
Windows IP Configuration\r
\r
Ethernet adapter Ethernet:\r
\r
   Connection-specific DNS Suffix  . : \r
   Link-local IPv6 Address . . . . . : fe80::1234:5678:9abc:def0%10\r
   IPv4 Address. . . . . . . . . . . : 192.168.1.146\r
   Subnet Mask . . . . . . . . . . . : 255.255.255.0\r
   Default Gateway . . . . . . . . . : 192.168.1.1\r
",
    );
    assert!(out.contains(&[192, 168, 1, 146]));
    assert!(!out.contains(&[255, 255, 255, 0]));
}

#[test]
fn ifconfig_and_ip_addr_both_parse() {
    let mac = parse_v4("\
en0: flags=8863<UP,BROADCAST> mtu 1500
\tether 4c:20:b8:a7:ea:59
\tinet 10.0.0.105 netmask 0xffffff00 broadcast 10.0.0.255
\tinet6 fe80::1%en0 prefixlen 64
");
    assert_eq!(mac, vec![[10, 0, 0, 105]]);

    let lin = parse_v4("2: eth0    inet 10.0.0.105/24 brd 10.0.0.255 scope global eth0\\       valid_lft forever");
    assert_eq!(lin, vec![[10, 0, 0, 105]]);
}

#[test]
fn ping_is_spelled_differently_on_every_platform() {
    let args = ping_args("windows", "10.0.0.1", 300);
    assert!(args.contains(&"-n".into()) && args.contains(&"-w".into()));
    assert!(!args.contains(&"-c".into()));
    assert!(args.contains(&"10.0.0.1".into()));
    for os in ["linux", "macos"] {
        let args = ping_args(os, "10.0.0.1", 300);
        assert!(args.contains(&"-c".into()) && args.contains(&"-W".into()));
        assert!(args.contains(&"10.0.0.1".into()));
    }
}

#[test]
fn the_loopback_address_resolves_to_an_interface() {
    let held = vec![("lo".to_string(), [127, 0, 0, 1]), ("eth0".to_string(), [10, 0, 0, 5])];
    assert_eq!(interface_holding(&held, [127, 0, 0, 1]).as_deref(), Some("lo"));
    assert!(interface_holding(&held, [203, 0, 113, 7]).is_none());
}

#[test]
fn macs_parse_in_the_forms_people_actually_paste() {
    let want = [0x00, 0x0f, 0xff, 0x18, 0x21, 0x9c];
    assert_eq!(netboot::parse_mac("00:0f:ff:18:21:9c"), Some(want));
    assert_eq!(netboot::parse_mac("00-0F-FF-18-21-9C"), Some(want));
    assert_eq!(netboot::parse_mac("000fff18219c"), Some(want));
    assert_eq!(netboot::parse_mac("00:0f:ff:18:21"), None);
    assert_eq!(netboot::parse_mac("not a mac at all"), None);
}

#[test]
fn a_mac_is_known_in_every_notation() {
    let norm = |s: &str| norm_mac(&s.chars().collect::<Vec<char>>());
    let like = |s: &str| looks_like_mac(&s.chars().collect::<Vec<char>>());
    for s in ["00:0f:ff:18:21:9c", "00-0F-FF-18-21-9C", "000f.ff18.219C", "0:f:ff:18:21:9c"] {
        assert!(like(s), "{s}");
        assert_eq!(norm(s), "00:0f:ff:18:21:9c", "{s}");
    }
    for s in ["192.168.1.7", "000f.ff18", "000f.ff18.219", "000f.ff18.21zz", "00:0f:ff:18:21"] {
        assert!(!like(s), "{s}");
    }
    let t = parse_arp("Internet  192.168.1.7   3   000f.ff18.219c  ARPA   Vlan1\n");
    assert_eq!(t.get("192.168.1.7").map(|m| m.as_str()), Some("00:0f:ff:18:21:9c"));
}

#[test]
fn a_mac_comes_off_a_name_whatever_the_mark() {
    for s in ["Living-EA1-000FFF9163CB", "Living-EA1_000FFF9163CB", "Living-EA1:000FFF9163CB"] {
        assert_eq!(strip_mac_tail(s), "Living-EA1");
        assert_eq!(mac_from_tail(s).as_deref(), Some("00:0f:ff:91:63:cb"));
    }
    assert_eq!(strip_mac_tail("000FFF9163CB"), "");
    assert_eq!(strip_mac_tail("Living-EA1"), "Living-EA1");
}

#[test]
fn a_printed_address_reads_back() {
    for m in [[0x00, 0x0f, 0xff, 0x18, 0x21, 0x9c], [0xab; 6], [0; 6]] {
        let s = netboot::format_mac(&m);
        for t in [s.clone(), s.to_uppercase(), s.replace(':', "-"), s.to_uppercase().replace(':', "-")] {
            assert_eq!(netboot::parse_mac(&t), Some(m), "{t}");
            assert_eq!(bootp::parse_mac(&t), Some(m), "{t}");
        }
        let bare = s.replace(':', "");
        assert_eq!(netboot::parse_mac(&bare), Some(m));
        assert_eq!(bootp::parse_mac(&bare), None);
        assert_eq!(netboot::parse_mac(&s[..14]), None);
        assert_eq!(bootp::parse_mac(&s[..14]), None);
    }
}

fn cfg() -> Config {
    Config {
        mac: [0x00, 0x0f, 0xff, 0x18, 0x21, 0x9c],
        client_ip: [192, 168, 1, 50],
        server_ip: [192, 168, 1, 2],
        netmask: [255, 255, 255, 0],
        bootfile: "hammer/uImage".into(),
    }
}

fn message_from(mac: [u8; 6], kind: MessageType) -> Message {
    let none = [0u8, 0, 0, 0];
    let mut m = Message::new_with_id(0x1234_5678, none.into(), none.into(), none.into(), none.into(), &mac);
    m.opts_mut().insert(v4::DhcpOption::MessageType(kind));
    m
}

fn wire(m: &Message) -> Vec<u8> {
    let mut buf = Vec::new();
    m.encode(&mut Encoder::new(&mut buf)).expect("encodes");
    buf
}

fn request_of(m: &Message, kind: u8) -> DhcpRequest {
    DhcpRequest { xid: m.xid(), flags: m.flags().into(), chaddr: m.chaddr().to_vec(), kind: Some(kind) }
}

#[test]
fn an_offer_puts_the_server_where_u_boot_reads_it() {
    let cfg = cfg();
    let req = message_from(cfg.mac, MessageType::Discover);
    let reply = build_reply(&cfg, &request_of(&req, 1), OFFER);

    assert_eq!(reply.opcode, BOOT_REPLY);
    assert_eq!(reply.xid, req.xid(), "the xid must come back unchanged");
    assert_eq!(reply.yiaddr, cfg.client_ip);
    assert_eq!(reply.siaddr, cfg.server_ip, "this is what becomes serverip");
    assert_eq!(reply.fname, "hammer/uImage");
    assert_eq!(reply.kind, OFFER);

    let buf = match answer(&cfg, &wire(&req)) {
        DhcpTurn::Reply { saw, kind, bytes } => {
            assert_eq!((saw, kind), (1, OFFER));
            bytes
        }
        other => panic!("{other:?}"),
    };
    let back = Message::decode(&mut Decoder::new(&buf)).expect("decodes");
    assert_eq!(back.opcode(), v4::Opcode::BootReply);
    assert_eq!(back.xid(), req.xid());
    assert_eq!(back.yiaddr().octets(), cfg.client_ip);
    assert_eq!(back.siaddr().octets(), cfg.server_ip);
    assert_eq!(back.chaddr(), &cfg.mac);
    assert_eq!(back.opts().msg_type(), Some(MessageType::Offer));
    assert_eq!(back.opts().get(v4::OptionCode::BootfileName).is_some(), true);
}

#[test]
fn a_request_from_another_machine_is_not_ours() {
    let cfg = cfg();
    let theirs = netboot::parse_mac("b8:27:eb:a7:72:95").unwrap();
    let req = message_from(theirs, MessageType::Discover);
    assert_ne!(req.chaddr(), cfg.mac, "the socket loop compares exactly this, and it must not match");
    assert_eq!(judge(&cfg.mac, &request_of(&req, 1)), Verdict::NotOurs);
    assert!(matches!(answer(&cfg, &wire(&req)), DhcpTurn::Ignored));
}

#[test]
fn a_request_is_answered_with_an_ack() {
    let cfg = cfg();
    let req = message_from(cfg.mac, MessageType::Request);
    assert_eq!(judge(&cfg.mac, &request_of(&req, REQUEST)), Verdict::Answer { saw: REQUEST, kind: ACK });
    let reply = build_reply(&cfg, &request_of(&req, REQUEST), ACK);
    assert_eq!(reply.kind, ACK);
    match answer(&cfg, &wire(&req)) {
        DhcpTurn::Reply { kind, bytes, .. } => {
            assert_eq!(kind, ACK);
            let back = Message::decode(&mut Decoder::new(&bytes)).expect("decodes");
            assert_eq!(back.opts().msg_type(), Some(MessageType::Ack));
        }
        other => panic!("{other:?}"),
    }
}

#[test]
fn other_messages_of_the_box_are_met_with_silence() {
    let cfg = cfg();
    let req = message_from(cfg.mac, MessageType::Release);
    assert!(matches!(answer(&cfg, &wire(&req)), DhcpTurn::Silent(7)));
    assert!(matches!(answer(&cfg, b"junk"), DhcpTurn::Nothing));
}

#[test]
fn a_packet_the_decoder_would_not_survive_is_nothing() {
    let cfg = cfg();
    let with = |opts: &[u8]| {
        let mut p = wire(&message_from(cfg.mac, MessageType::Discover));
        p.truncate(240);
        p.extend_from_slice(opts);
        answer(&cfg, &p)
    };
    let bad: [&[u8]; 7] = [
        &[53, 1, 1, 80, 1, 0, 255],
        &[80, 1, 0],
        &[53, 1, 1, 81, 2, 0, 0, 255],
        &[53, 1, 1, 94, 2, 1, 2, 255],
        &[53, 1, 1, 152, 3, 0, 0, 0],
        &[53, 1, 1, 155, 4, 0, 0, 0, 0, 155, 1, 0, 255],
        // Padding ends a value.
        &[53, 1, 1, 94, 2, 1, 2, 0, 94, 1, 1, 255],
    ];
    for o in bad {
        assert!(matches!(with(o), DhcpTurn::Nothing), "{o:?}");
    }
    let good: [&[u8]; 6] = [
        &[53, 1, 1, 255],
        &[0, 53, 1, 1, 80, 0, 255],
        // Two parts of one value.
        &[53, 1, 1, 94, 1, 1, 94, 2, 2, 1, 255],
        &[53, 1, 1, 152, 4, 0, 0, 0, 1],
        // Behind the end, and where the last part is cut off, nothing is read.
        &[53, 1, 1, 255, 80, 1, 0],
        &[53, 1, 1, 94, 1, 1, 94, 9],
    ];
    for o in good {
        assert!(matches!(with(o), DhcpTurn::Reply { saw: 1, kind: OFFER, .. }), "{o:?}");
    }
    let mut long = wire(&message_from(cfg.mac, MessageType::Discover));
    long[2] = 17;
    assert!(matches!(answer(&cfg, &long), DhcpTurn::Nothing));
}

#[test]
fn staging_creates_the_advertised_path() {
    assert_eq!(staged_name("hammer/uImage"), "hammer/uImage");
    // A leading slash would leave the directory that is served.
    assert_eq!(staged_name("/hammer/uImage"), "hammer/uImage");
}

const DIRECTOR_NOTIFY: &str = "NOTIFY * HTTP/1.1\r
Host: 239.255.255.250:1900\r
NTS: ssdp:alive\r
ST: c4:director\r
USN: c4:director:Living-EA1-000FFF9163CB\r
CACHE-CONTROL: max-age = 5000, no-cache=\"Ext\"\r
\r
";

const SDDP_ALIVE: &str = "NOTIFY ALIVE SDDP/1.0\r
From: \"192.168.1.109:1902\"\r
Host: \"leaf_ultra_lu862-70b3d50c1637\"\r
Max-Age: 1800\r
Type: \"c4:leaf_ultra_hdmivswitch_c\"\r
Primary-Proxy: \"avswitch\"\r
Manufacturer: \"Leaf Audio\"\r
Model: \"ULTRA LU862\"\r
Driver: \"leaf_ultra_lu862_ip.c4i\"\r
Config-URL: \"http://192.168.1.109\"\r
\r
";

#[test]
fn the_director_usn_carries_a_name_and_a_mac() {
    let u = parse(DIRECTOR_NOTIFY, "192.168.1.172").expect("a director");
    assert_eq!(u.name.as_deref(), Some("Living-EA1"));
    assert_eq!(u.mac.as_deref(), Some("00:0f:ff:91:63:cb"));
    assert!(u.is_director);
}

#[test]
fn an_sddp_record_carries_the_identity_a_list_should_show() {
    let u = parse(SDDP_ALIVE, "192.168.1.109").expect("a device");
    assert_eq!(u.manufacturer.as_deref(), Some("Leaf Audio"));
    assert_eq!(u.model.as_deref(), Some("ULTRA LU862"));
    assert_eq!(u.kind.as_deref(), Some("c4:leaf_ultra_hdmivswitch_c"));
    assert_eq!(u.config_url.as_deref(), Some("http://192.168.1.109"));
    assert!(!u.is_director);
    assert_eq!(u.mac.as_deref(), Some("70:b3:d5:0c:16:37"));
    assert_eq!(u.name.as_deref(), Some("leaf_ultra_lu862"));
}

#[test]
fn a_name_with_a_mac_glued_on_is_shown_without_it() {
    let sddp = SDDP_ALIVE.replace("leaf_ultra_lu862-70b3d50c1637", "Front-Garage-EA1-000FFF1DCCB1");
    let u = parse(&sddp, "192.168.1.139").unwrap();
    assert_eq!(u.name.as_deref(), Some("Front-Garage-EA1"));
    assert_eq!(u.mac.as_deref(), Some("00:0f:ff:1d:cc:b1"));
    assert_eq!(strip_mac_tail("Living-EA1"), "Living-EA1");
}

#[test]
fn our_own_searches_are_not_discoveries() {
    assert!(parse(&String::from_utf8(ssdp_msearch()).unwrap(), "10.0.0.5").is_none());
    assert!(parse(&String::from_utf8(sddp_search([10, 0, 0, 5])).unwrap(), "10.0.0.5").is_none());
}

#[test]
fn a_device_saying_goodbye_is_not_present() {
    let bye = "NOTIFY OFFLINE SDDP/1.0\r\nHost: \"x\"\r\nFrom: \"192.168.1.112:1902\"\r\nType: \"Denon:AVR-X2100W\"\r\n\r\n";
    assert!(parse(bye, "192.168.1.112").is_none());
}

#[test]
fn non_control4_ssdp_is_ignored() {
    let upnp = "NOTIFY * HTTP/1.1\r\nNT: upnp:rootdevice\r\nST: upnp:rootdevice\r\nUSN: uuid:bf891288\r\n\r\n";
    assert!(parse(upnp, "192.168.1.1").is_none());
}

#[test]
fn searches_are_well_formed() {
    let m = String::from_utf8(ssdp_msearch()).unwrap();
    assert!(m.starts_with("M-SEARCH * HTTP/1.1") && m.contains("ST: c4:director"));
    assert!(m.ends_with("\r\n\r\n"));
    let s = String::from_utf8(sddp_search([10, 0, 0, 5])).unwrap();
    assert!(s.contains("Host: \"10.0.0.5:1902\""));
}

#[test]
fn a_line_split_across_reads_is_reassembled() {
    let mut buf = b"emmc rd 0x800".to_vec();
    assert!(split_complete_lines(&mut buf).is_empty(), "no newline yet: hold it");
    buf.extend_from_slice(b"400 0x6000000\r\n");
    assert_eq!(split_complete_lines(&mut buf), vec!["emmc rd 0x800400 0x6000000"]);
    assert!(buf.is_empty(), "a fully-consumed line leaves nothing pending");
}

#[test]
fn crlf_does_not_produce_blank_lines_between_real_ones() {
    let mut buf = b"Manufacturing Mode: Enabled\r\nEntering Control4\r\n".to_vec();
    assert_eq!(split_complete_lines(&mut buf), vec!["Manufacturing Mode: Enabled", "Entering Control4"]);
}

#[test]
fn the_unterminated_prompt_stays_pending_then_is_taken() {
    let mut buf = b"banner line\r\nshell>".to_vec();
    assert_eq!(split_complete_lines(&mut buf), vec!["banner line"]);
    assert_eq!(&buf, b"shell>", "the bare prompt is left buffered");
    assert_eq!(take_pending(&mut buf).as_deref(), Some("shell>"));
    assert!(buf.is_empty());
}

#[test]
fn block_size_matches_the_sector_the_rest_of_the_tool_uses() {
    assert_eq!(BLOCK as u64, cefdk::SECTOR);
}

#[test]
fn rrq_octet_is_parsed_into_a_read() {
    let mut pkt = vec![0, OP_RRQ as u8];
    pkt.extend_from_slice(b"bzImage\0octet\0");
    match parse_request(&pkt) {
        Some(Request::Read { filename, octet }) => {
            assert_eq!(filename, "bzImage");
            assert!(octet, "CEFDK asks in octet mode");
        }
        _ => panic!("expected a read request"),
    }
}

#[test]
fn a_wrq_is_recognised_so_it_can_be_refused() {
    let pkt = [0, OP_WRQ as u8, b'x', 0, b'o', b'c', b't', b'e', b't', 0];
    assert!(matches!(parse_request(&pkt), Some(Request::Write)));
}

#[test]
fn junk_is_not_a_request() {
    assert!(parse_request(&[]).is_none());
    assert!(parse_request(&[0]).is_none());
    assert!(parse_request(&[0, 99, b'x', 0]).is_none(), "unknown opcode");
}

#[test]
fn data_frame_has_opcode_block_then_payload() {
    let p = data_packet(1, b"hi");
    assert_eq!(&p[..2], &[0, OP_DATA as u8]);
    assert_eq!(&p[2..4], &[0, 1], "block 1, big-endian");
    assert_eq!(&p[4..], b"hi");
}

#[test]
fn ack_round_trips_the_block_number() {
    let ack = [0, OP_ACK as u8, 0x12, 0x34];
    assert_eq!(parse_ack(&ack), Some(0x1234));
    assert_eq!(parse_ack(&[0, OP_DATA as u8, 0, 1]), None, "a DATA packet is not an ACK");
    assert_eq!(parse_ack(&[0, OP_ACK as u8]), None, "too short to hold a block number");
}

#[test]
fn unsafe_names_are_rejected() {
    assert!(is_unsafe_name("../etc/passwd"));
    assert!(is_unsafe_name("/etc/passwd"));
    assert!(is_unsafe_name("sub/dir"));
    assert!(!is_unsafe_name("bzImage"));
    assert!(!is_unsafe_name("rootfs.cpio.gz"));
}

#[test]
fn an_answer_has_its_bytes() {
    let cfg = cfg();
    let bytes = match answer(&cfg, &wire(&message_from(cfg.mac, MessageType::Discover))) {
        DhcpTurn::Reply { bytes, .. } => bytes,
        other => panic!("{other:?}"),
    };
    let mut want: Vec<u8> = vec![2, 1, 6, 0, 0x12, 0x34, 0x56, 0x78, 0, 0, 0, 0, 0, 0, 0, 0];
    want.extend([192, 168, 1, 50, 192, 168, 1, 2, 0, 0, 0, 0]);
    want.extend(cfg.mac);
    want.resize(28 + 16 + 64, 0);
    want.extend(b"hammer/uImage");
    want.resize(236, 0);
    want.extend([99, 130, 83, 99, 1, 4, 255, 255, 255, 0, 51, 4]);
    want.extend(netboot::LEASE_SECS.to_be_bytes());
    want.extend([53, 1, 2, 54, 4, 192, 168, 1, 2, 66, 11]);
    want.extend(b"192.168.1.2");
    want.extend([67, 13]);
    want.extend(b"hammer/uImage");
    want.push(255);
    assert_eq!(bytes, want);
}
