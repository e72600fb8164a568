use openhc::cli::{
    arg, auto_host, boot_news, connect_args, discovered, flag, identified, images_arg, install, install_method, list_boards,
    netboot_args, netboot_banner, netboot_verdict, not_connected, positional, progress, rootfs, show_plan, target, validated, wishes,
    wrap, wrap_args, wrap_done, BootNews, BootTally, Heard, InstallAt, Said, Say, Todo, Wishes,
};
use openhc::engine::flow::Event;
use openhc::env::{env_value, hostname, Env};
use openhc::flasher::board::{by_name, Identity, Running};
use openhc::num::{dec_signed_string, dec_string, hex0x_string, hex2_string, hex_string, parse_int, parse_number};
use openhc::text::{join, lines_of, same, split_of, to_chars, trim_str, words_of, Class};
use openhc::textmap::TextMap;
use openhc::transport::discovery::{
    address_command, discover, discover_all, local_subnets, local_v4, neighbour_command, suspects, sweep_chunk, sweep_targets,
    to_ask, Found,
};
use openhc::transport::ipv4::{dotted_string, parse_address};
use openhc::transport::netboot::{bind_dhcp_error, default_bootfile, format_mac, unsent, BindFault};
use openhc::transport::probe::{identify, Evidence};
use openhc::transport::sddp::{questions, Search};
use openhc::transport::serial::{command_bytes, SerialError};
use openhc::transport::ssh::{
    first_working_login, legacy_opts, logins, ok, read_command, read_file, wait_for_login, LoginStep, Ssh, SshError, WaitAt,
    WaitStep,
};
use openhc::transport::tftp::{error_packet, serve_request, Heard as TftpHeard, SendNext, Served, Transfer, BLOCK};
use openhc::wizard::icon::{app_icon, SIDE};
use openhc::wizard::jobs::{read_hostname, read_installed_version, release_info, Job, RunAt, RunStep};
use openhc::wizard::page::{Action, Item};
use openhc::wizard::state::{fmt_bytes, identity_for, running_text, Conn, Lvl, Phase, RelInfo, Step, Wizard};
use openhc::wizard::steps::{log_panel, nav, step_check, step_find, step_images, step_install};

fn v(a: &[&str]) -> Vec<String> {
    a.iter().map(|s| s.to_string()).collect()
}

fn id_for(name: &str, running: Running) -> Identity {
    identity_for(by_name(name).unwrap(), running)
}

fn found(ip: &str, mac: Option<&str>) -> Found {
    Found {
        ip: ip.into(),
        mac: mac.map(|m| m.into()),
        via: vec!["arp".into()],
        name: None,
        kind: None,
        manufacturer: None,
        model: None,
        config_url: None,
        is_director: false,
    }
}

fn said(s: &Said) -> String {
    s.lines
        .iter()
        .map(|l| match l {
            Say::Out(t) | Say::Oops(t) | Say::Ask(t) => t.clone(),
        })
        .collect::<Vec<_>>()
        .join("\n")
}

// ------------------------------------------------------------------ text and numbers

#[test]
fn texts_are_cut_and_joined() {
    assert!(same("a", "a") && !same("a", "b"));
    assert_eq!(trim_str(" \u{2003}x \n"), "x");
    let c = to_chars("a,,b");
    assert_eq!(split_of(&c, &Class::One(',')).len(), 3);
    let c = to_chars(" one\ttwo ");
    assert_eq!(words_of(&c).len(), 2);
    let c = to_chars("a\r\nb\n\nc");
    let ls: Vec<String> = lines_of(&c).iter().map(|l| l.iter().collect()).collect();
    assert_eq!(ls, vec!["a", "b", "", "c"]);
    assert_eq!(join(&v(&["a", "b"]), ", "), "a, b");
}

#[test]
fn numbers_are_written_and_read() {
    assert_eq!((dec_string(0).as_str(), dec_string(u64::MAX).as_str()), ("0", "18446744073709551615"));
    assert_eq!((hex_string(255).as_str(), hex0x_string(4096).as_str(), hex2_string(7).as_str()), ("ff", "0x1000", "07"));
    assert_eq!(dec_signed_string(i64::MIN), "-9223372036854775808");
    assert_eq!(parse_number(&to_chars("+12"), 10, 100), Some(12));
    assert_eq!(parse_number(&to_chars("101"), 10, 100), None);
    assert_eq!(parse_number(&to_chars(""), 10, 100), None);
    assert_eq!(parse_number(&to_chars("fF"), 16, 255), Some(255));
    assert_eq!(parse_int(&to_chars("-9223372036854775808")), Some(i64::MIN));
    assert_eq!(parse_int(&to_chars("-")), None);
}

#[test]
fn the_environment_file_is_read() {
    let e = Env::parse("# c\nA=1\n B = \"two\" # x\nA='three'\nnonsense\n");
    assert_eq!((e.get("A").as_deref(), e.get("B").as_deref(), e.get("C")), (Some("three"), Some("two"), None));
    assert_eq!(e.get_or("C", "d"), "d");
    assert_eq!(env_value("OHC_BOARD=\"ea3-v2\"\n", "OHC_BOARD").as_deref(), Some("ea3-v2"));
    assert_eq!(env_value("OHC_BOARD=\n", "OHC_BOARD"), None);
    assert_eq!(env_value("OHC_BOARD=\"ea3-v2\"  # the variant\n", "OHC_BOARD").as_deref(), Some("ea3-v2"));
    assert_eq!(env_value("OHC_BOARD=ea3-v2 # \"x\"\n", "OHC_BOARD").as_deref(), Some("ea3-v2"));
    assert_eq!(env_value("OHC_BOARD=\"\" # none\n", "OHC_BOARD"), None);
    assert_eq!((hostname(Some("box\n")).as_str(), hostname(None).as_str()), ("box", "openhc"));
}

#[test]
fn text_maps_keep_their_keys_in_order() {
    let mut m: TextMap<u8> = TextMap::new();
    m.insert("b".into(), 1);
    m.insert("a".into(), 2);
    m.insert("b".into(), 3);
    assert_eq!((m.len(), m.key_at(0), *m.value_at(0), m.get("b")), (2, "a", 2, Some(&3)));
    assert!(!m.contains_key("c"));
}

// ------------------------------------------------------------------------- transport

#[test]
fn addresses_are_dotted() {
    assert_eq!(dotted_string([10, 0, 0, 255]), "10.0.0.255");
    assert_eq!(parse_address(&to_chars("10.0.0.255")), Some([10, 0, 0, 255]));
    for bad in ["10.0.0", "10.0.0.256", "10.0.0.01", "a.b.c.d", "1.2.3.4.5", ""] {
        assert_eq!(parse_address(&to_chars(bad)), None, "{bad}");
    }
}

#[test]
fn subnets_are_swept() {
    let mine = local_v4("inet 10.0.0.5/24\ninet 127.0.0.1/8\ninet 10.0.0.5/24\ninet 169.254.1.1/16\n");
    assert_eq!(mine, vec![[10, 0, 0, 5], [169, 254, 1, 1]]);
    let nets = local_subnets(&vec![[10, 0, 0, 5], [10, 0, 0, 9], [192, 168, 1, 2]]);
    assert_eq!(nets.len(), 2);
    let hosts = sweep_targets(&nets);
    assert_eq!(hosts.len(), 2 * 254);
    assert_eq!(hosts[0], "10.0.0.1");
    assert!(sweep_chunk(508) >= 1);
}

#[test]
fn discovery_joins_what_it_knows() {
    let mut search = Search::new();
    search.hear(
        b"NOTIFY * HTTP/1.1\r\nNTS: ssdp:alive\r\nST: c4:director\r\nUSN: c4:director:Living-EA1-000FFF9163CB\r\n\r\n",
        "192.168.1.172",
    );
    assert_eq!(search.units.len(), 1);
    let mut arp: TextMap<String> = TextMap::new();
    arp.insert("192.168.1.5".into(), "00:0f:ff:11:22:33".into());
    arp.insert("192.168.1.6".into(), "b8:27:eb:11:22:33".into());
    arp.insert("not-an-address".into(), "00:0f:ff:44:55:66".into());
    assert_eq!(to_ask(&arp), vec![[192, 168, 1, 5]]);
    assert_eq!(suspects(&search.units, &arp), vec!["192.168.1.5".to_string(), "not-an-address".to_string()]);
    let all = discover_all(&search.units, &arp, &v(&["192.168.1.5"]));
    assert!(all.iter().any(|f| f.ip == "192.168.1.172" && f.is_director));
    let c4 = discover(all);
    assert!(c4.iter().all(|f| f.is_control4()));
    assert!(!c4.iter().any(|f| f.ip == "192.168.1.6"));
    assert!(questions([10, 0, 0, 5], &vec![[10, 0, 0, 9]]).iter().any(|q| q.ip == [10, 0, 0, 9]));
}

#[test]
fn ssh_outcomes_are_told_apart() {
    let s = Ssh::new("10.0.0.9", "root", None);
    assert!(s.base(false).is_ok());
    let with = Ssh::new("10.0.0.9", "root", Some("pw".into()));
    assert!(matches!(with.base(false), Err(SshError::NoSshpass)));
    assert_eq!(with.base(true).unwrap()[0], "sshpass");
    assert_eq!(s.run_outcome("ls", true, true, Some(0), b"out\n", b"").unwrap().trim(), "out");
    assert!(matches!(
        s.run_outcome("ls", true, false, Some(2), b"", b"no such file"),
        Err(SshError::Command { code: 2, .. })
    ));
    assert!(s.run_outcome("ls", false, false, Some(2), b"x", b"").is_ok());
    assert!(s.put_outcome("cat", false, None, b"", b"broken pipe").is_err());
    assert!(ok("ohc-ok\n") && !ok("denied"));
    assert!(read_command("/etc/x").contains("/etc/x"));
    assert_eq!(read_file(String::new()), None);
    assert!(logins("h", &v(&["a"])).len() >= 2);
    assert!(legacy_opts().contains(&"HostKeyAlgorithms=+ssh-rsa".to_string()));
    assert!(SshError::Spawn("gone".into()).text().contains("gone"));
}

#[test]
fn a_unit_is_identified_by_what_it_shows() {
    let none = || Evidence { board_env: None, c4_name: None, c4_type: None, c4_revision: None, sys_vendor: None, product_name: None };
    assert_eq!(identify(&Evidence { board_env: Some("OHC_BOARD=ea3-v2\n".into()), ..none() }).board.unwrap().name, "ea3-v2");
    let stock = identify(&Evidence { c4_type: Some("2\n".into()), c4_revision: Some("9\n".into()), ..none() });
    assert_eq!((stock.board.unwrap().name, stock.running), ("ea3-v2", Running::Stock));
    assert!(identify(&none()).board.is_none());
}

#[test]
fn serial_commands_end_a_line() {
    assert_eq!(command_bytes("cache flush").last(), Some(&b'\r'));
    assert!(SerialError::Open { dev: "/dev/x".into(), msg: "busy".into() }.text().contains("/dev/x"));
    assert!(SerialError::Io("gone".into()).text().contains("gone"));
}

#[test]
fn netboot_names_and_errors() {
    assert_eq!(format_mac(&[0, 0x0f, 0xff, 1, 2, 3]), "00:0f:ff:01:02:03");
    assert!(!default_bootfile("hammer").is_empty());
    let a = bind_dhcp_error(BindFault::Denied, "x");
    let b = bind_dhcp_error(BindFault::InUse, "x");
    assert_ne!(a, b);
    assert!(bind_dhcp_error(BindFault::Other, "odd").contains("odd"));
}

#[test]
fn a_file_is_sent_block_by_block() {
    let data = vec![5u8; BLOCK + 3];
    let mut t = Transfer::new(&data);
    assert_eq!(t.packet().len(), 4 + BLOCK);
    let ack = |n: u8| TftpHeard::Datagram { bytes: vec![0, 4, 0, n], from_peer: true };
    assert!(matches!(t.hear(TftpHeard::Datagram { bytes: vec![0, 4, 0, 1], from_peer: false }), SendNext::Send));
    assert!(matches!(t.hear(ack(1)), SendNext::Send));
    assert_eq!(t.packet().len(), 4 + 3);
    assert!(matches!(t.hear(ack(2)), SendNext::Done));
    let mut t = Transfer::new(&data);
    let mut gave_up = false;
    for _ in 0..10 {
        if matches!(t.hear(TftpHeard::Silence), SendNext::GaveUp) {
            gave_up = true;
            break;
        }
    }
    assert!(gave_up);
    assert!(matches!(serve_request(b"\0\x01bzImage\0octet\0"), Served::File(n) if n == "bzImage"));
    assert!(matches!(serve_request(b"\0\x02x\0octet\0"), Served::Refused { .. }));
    assert!(matches!(serve_request(b"\0\x01../x\0octet\0"), Served::Refused { .. }));
    assert!(matches!(serve_request(b"junk"), Served::Ignored));
    assert_eq!(error_packet(1, "no"), b"\0\x05\0\x01no\0");
}

// ------------------------------------------------------------------------------- cli

#[test]
fn arguments_are_found() {
    let a = v(&["h", "--board", "ea3-v2", "--yes", "x"]);
    assert_eq!(arg(&a, "--board").as_deref(), Some("ea3-v2"));
    assert_eq!(arg(&v(&["--board"]), "--board"), None);
    assert!(flag(&a, "--yes") && !flag(&a, "--no"));
    assert!(positional(&a).contains(&"h".to_string()));
    assert!(!images_arg(&v(&[])).is_empty());
    assert_eq!(images_arg(&v(&["--images", "d"])), "d");
    assert_eq!(connect_args(&v(&["10.0.0.9"])).0.as_deref(), Some("10.0.0.9"));
}

#[test]
fn every_board_is_listed() {
    let t = said(&list_boards());
    for b in openhc::flasher::board::boards() {
        assert!(t.contains(b.name));
    }
}

#[test]
fn the_only_unit_is_taken_and_two_are_not_guessed_between() {
    let one = vec![found("10.0.0.9", Some("00:0f:ff:11:22:33"))];
    assert_eq!(auto_host(&one).1.as_deref(), Some("10.0.0.9"));
    let two = vec![found("10.0.0.9", Some("00:0f:ff:11:22:33")), found("10.0.0.8", Some("00:0f:ff:11:22:34"))];
    assert_eq!(auto_host(&two).1, None);
    assert_eq!(auto_host(&vec![]).1, None);
    assert!(said(&discovered(&two).0).contains("10.0.0.8"));
    assert_ne!(not_connected("h", true), not_connected("h", false));
}

#[test]
fn a_target_is_known_or_named() {
    let ea = id_for("ea3-v2", Running::Stock);
    assert!(identified("h", &ea).1);
    assert_eq!(target(&ea, None).1.unwrap().name, "ea3-v2");
    let none = Identity::none(Running::Unknown);
    assert!(target(&none, None).1.is_none());
    assert_eq!(target(&none, Some("ca1")).1.unwrap().name, "ca1");
    assert!(target(&none, Some("toaster")).1.is_none());
    assert!(install_method(&ea, by_name("ea3-v2").unwrap()).1);
    assert!(!install_method(&id_for("ca1", Running::Stock), by_name("ca1").unwrap()).1);
    assert!(show_plan(&v(&["ea3-v2"])).1);
    assert!(!show_plan(&v(&["toaster"])).1);
}

#[test]
fn nothing_is_written_unasked() {
    let w = Wishes { dry_run: false, yes: false, self_install: false, no_wait: false };
    let (at, _, todo) = install(InstallAt::Ready, &w, "h", "i", &Heard::Nothing);
    assert!(matches!(todo, Todo::ReadLine));
    let (_, _, todo) = install(at, &w, "h", "i", &Heard::Line("no\n".into()));
    assert!(matches!(todo, Todo::Exit(_)));
    let dry = Wishes { dry_run: true, ..w };
    assert!(matches!(install(InstallAt::Ready, &dry, "h", "i", &Heard::Nothing).2, Todo::Exit(true)));
    let yes = wishes(&v(&["--yes"]));
    let (at, _, todo) = install(InstallAt::Ready, &yes, "h", "i", &Heard::Nothing);
    assert!(matches!(todo, Todo::StageOne));
    let (at, _, todo) = install(at, &yes, "h", "i", &Heard::Done(Ok(())));
    assert!(matches!(todo, Todo::Wait { .. }));
    let (at, _, todo) = install(at, &yes, "h", "i", &Heard::Done(Ok(())));
    assert!(matches!(todo, Todo::StageTwo));
    assert!(matches!(install(at, &yes, "h", "i", &Heard::Done(Ok(()))).2, Todo::Exit(true)));
    assert!(matches!(rootfs(InstallAt::Ready, false, "h", &Heard::Nothing).2, Todo::ReadLine));
    assert!(matches!(rootfs(InstallAt::Ready, true, "h", &Heard::Nothing).2, Todo::StageTwo));
}

#[test]
fn a_kernel_is_wrapped() {
    let a = wrap_args(&v(&["in", "out"])).unwrap();
    assert_eq!((a.src.as_str(), a.dst.as_str()), ("in", "out"));
    assert!(wrap_args(&v(&["in"])).is_err());
    assert!(wrap("in", b"no kernel", None).is_err());
    let mut k = vec![0u8; 0x400];
    k[0x1fe] = 0x55;
    k[0x1ff] = 0xaa;
    k[0x202..0x206].copy_from_slice(b"HdrS");
    assert_eq!(wrap("in", &k, None).unwrap().len(), 0x580 + 0x400);
    assert!(said(&wrap_done("out", 0x400, 0x980)).contains("out"));
}

#[test]
fn a_netboot_needs_a_board_an_image_and_a_mac() {
    let a = v(&["--mac", "00:0f:ff:18:21:9c", "--board", "hammer", "--image", "uImage", "--ip", "192.168.1.50"]);
    match netboot_args(&a, true, Some([192, 168, 1, 2])) {
        Ok(p) => {
            assert_eq!(p.mac, [0, 0x0f, 0xff, 0x18, 0x21, 0x9c]);
            assert!(said(&netboot_banner(&p)).contains("00:0f:ff:18:21:9c"));
        }
        Err(e) => assert!(!said(&e).is_empty()),
    }
    assert!(netboot_args(&v(&[]), true, None).is_err());
    assert!(netboot_verdict(Ok(()), true, true, 0).1);
    assert!(!netboot_verdict(Err("no port".into()), false, false, 0).1);
}

#[test]
fn a_release_is_validated() {
    let bad = RelInfo { source: "x".into(), kernel_len: 0, problems: v(&["no bzImage"]), names: vec![] };
    let (s, good) = validated(&bad);
    assert!(!good && said(&s).contains("no bzImage"));
}

// ---------------------------------------------------------------------------- wizard

fn labels(items: &[Item]) -> Vec<String> {
    items
        .iter()
        .filter_map(|i| match i {
            Item::Button(s, _, _) => Some(s.clone()),
            _ => None,
        })
        .collect()
}

#[test]
fn a_busy_wizard_starts_nothing() {
    let mut w = Wizard::new("images");
    w.host = "10.0.0.9".into();
    assert!(matches!(w.press(Action::Connect, "linux"), Job::Connect { host, .. } if host == "10.0.0.9"));
    assert!(w.busy.is_some());
    for page in [step_find(&w), step_check(&w), step_images(&w), step_install(&w)] {
        for i in &page.items {
            if let Item::Button(label, true, a) = i {
                assert!(
                    !matches!(a, Action::Scan | Action::Load | Action::Install | Action::Finish | Action::Download),
                    "{label} can be pressed"
                );
            }
        }
    }
    w.connect_failed("10.0.0.9", true);
    assert!(w.busy.is_none() && w.connect_error.is_some());
}

#[test]
fn the_wizard_walks_to_an_install() {
    let mut w = Wizard::new("images");
    w.host = "10.0.0.9".into();
    w.press(Action::Connect, "linux");
    w.connected(Conn { host: "10.0.0.9".into(), id: id_for("ea3-v2", Running::Stock), installed_version: None });
    assert_eq!(w.board().unwrap().name, "ea3-v2");
    assert!(matches!(w.press(Action::Load, "linux"), Job::Load { path } if path == "images"));
    w.loaded(RelInfo { source: "images".into(), kernel_len: 9, problems: vec![], names: v(&["bzImage"]) });
    match w.start_install(false) {
        Job::Install { host, finish_only, .. } => assert_eq!((host.as_str(), finish_only), ("10.0.0.9", false)),
        other => panic!("{other:?}"),
    }
    let mut at = RunAt::Start;
    assert!(matches!(w.run_install(&mut at, false, false, Ok(())), RunStep::Stage1));
    assert!(matches!(w.run_install(&mut at, false, false, Ok(())), RunStep::Wait { .. }));
    assert!(w.stage1_done);
    assert!(matches!(w.run_install(&mut at, false, false, Ok(())), RunStep::Stage2));
    assert!(matches!(w.run_install(&mut at, false, false, Ok(())), RunStep::Ended(Ok(()))));
    w.installed(Ok(()));
    assert_eq!(w.phase, Some(Phase::Done));
    assert!(w.busy.is_none());
}

#[test]
fn a_failed_second_stage_can_be_finished() {
    let mut w = Wizard::new("images");
    let mut at = RunAt::Start;
    w.run_install(&mut at, false, false, Ok(()));
    w.run_install(&mut at, false, false, Ok(()));
    assert!(matches!(w.run_install(&mut at, false, false, Err("timeout".into())), RunStep::Ended(Err(_))));
    w.installed(Err("timeout".into()));
    assert!(w.stage1_done);
    w.step = Step::Install;
    w.conn = Some(Conn { host: "h".into(), id: id_for("ea3-v2", Running::Stock), installed_version: None });
    w.rel_info = Some(RelInfo { source: "i".into(), kernel_len: 9, problems: vec![], names: vec![] });
    assert!(labels(&step_install(&w).items).iter().any(|l| l.to_lowercase().contains("finish")));
}

#[test]
fn pages_say_what_is_known() {
    let mut w = Wizard::new("images");
    assert!(!step_find(&w).items.is_empty());
    assert!(!step_check(&w).items.is_empty());
    assert!(!step_images(&w).items.is_empty());
    w.push(Lvl::Warn, "careful");
    assert!(log_panel(&w).items.iter().any(|i| matches!(i, Item::Mono(_, s) | Item::Text(_, s) if s.contains("careful"))));
    assert!(labels(&nav(&w).items).len() >= 1);
    w.reset();
    assert_eq!(w.step, Step::Find);
    assert_eq!(w.blocker().is_some(), true);
    assert_ne!(running_text(Running::Stock), running_text(Running::Openhc));
    assert_eq!(fmt_bytes(1023), "1023 B");
    assert_eq!(app_icon().len() as u32, SIDE * SIDE * 4);
}

#[test]
fn a_box_tells_its_name_and_version() {
    assert_eq!(read_hostname(Some(" box\n")).as_deref(), Some("box"));
    assert_eq!(read_hostname(Some("\n")), None);
    assert_eq!(read_installed_version(Some("name=openHC\n version=\"v1.2.0\"\n"), None).as_deref(), Some("v1.2.0"));
    assert_eq!(read_installed_version(Some("x\n"), Some("OHC_VERSION=abc-dev\n")).as_deref(), Some("abc-dev"));
    assert_eq!(read_installed_version(Some("version=\n"), Some("OHC_VERSION=abc-dev\n")), None);
    assert_eq!(read_installed_version(None, None), None);
}

#[test]
fn a_release_without_a_kernel_has_problems() {
    let rel = openhc::engine::release::Release::from_dir("d", vec![("rootfs.cpio.gz".into(), vec![1])]).unwrap();
    let info = release_info(&rel);
    assert!(!info.problems.is_empty());
    assert_eq!(info.names, vec!["rootfs.cpio.gz"]);
}

#[test]
fn nobody_logs_in_before_the_box_went_down() {
    let (mut at, mut clock, mut tries) = (WaitAt::Start, 0, Vec::new());
    loop {
        match wait_for_login(at, clock, 55) {
            WaitStep::Pause(n) => {
                clock += n;
                at = WaitAt::Rested;
            }
            WaitStep::Try => {
                tries.push(clock);
                at = WaitAt::Tried(false);
            }
            WaitStep::Back => panic!("nobody answered"),
            WaitStep::GiveUp => break,
        }
    }
    assert_eq!(tries, vec![30, 40, 50]);
    assert_eq!(wait_for_login(WaitAt::Tried(true), 99, 55), WaitStep::Back);
    assert_eq!(wait_for_login(WaitAt::Rested, 30, 30), WaitStep::GiveUp);
}

#[test]
fn the_first_login_that_answers_is_taken() {
    let tried = |answers: &[bool]| {
        let (mut last, mut n) = (None, 0);
        loop {
            match first_working_login(answers.len(), last) {
                LoginStep::Try(i) => {
                    n += 1;
                    last = Some((i, answers[i]));
                }
                LoginStep::Taken(i) => return (n, Some(i)),
                LoginStep::Refused => return (n, None),
            }
        }
    };
    assert_eq!(tried(&[false, true, true]), (2, Some(1)));
    assert_eq!(tried(&[false, false]), (2, None));
    assert_eq!(tried(&[]), (0, None));
}

fn printed(s: &Said) -> Vec<String> {
    s.lines
        .iter()
        .map(|l| match l {
            Say::Out(t) => format!("out {t}"),
            Say::Oops(t) => format!("err {t}"),
            Say::Ask(t) => format!("ask {t}"),
        })
        .collect()
}

#[test]
fn a_flow_is_shown_on_a_terminal() {
    assert_eq!(printed(&progress(&Event::Step("a".into()))), v(&["out   a"]));
    assert_eq!(printed(&progress(&Event::Detail("a".into()))), v(&["out     a"]));
    assert_eq!(printed(&progress(&Event::Warn("a".into()))), v(&["out   ! a"]));
    assert_eq!(printed(&progress(&Event::Observed("a".into()))), v(&["out     . a"]));
    assert_eq!(printed(&progress(&Event::Resolved("a".into()))), v(&["out   OK a"]));
    let wait = Event::Await { title: "Power-cycle".into(), instruction: "one\r\ntwo\n".into() };
    assert_eq!(
        printed(&progress(&wait)),
        v(&["out \n  ==> ACTION NEEDED: Power-cycle", "out       one", "out       two", "out "])
    );
}

#[test]
fn a_flow_is_noted_in_the_log() {
    let mut w = Wizard::new("images");
    let before = w.log.len();
    w.note(&Event::Resolved("came back".into()));
    w.note(&Event::Observed("a packet".into()));
    w.note(&Event::Await { title: "Press".into(), instruction: "the button".into() });
    assert_eq!(w.log.len(), before + 3);
    assert!(matches!(&w.log[before], (Lvl::Step, t) if t == "came back"));
    assert!(matches!(&w.log[before + 1], (Lvl::Detail, t) if t == "a packet"));
    assert!(matches!(&w.log[before + 2], (Lvl::Warn, t) if t == "Press\nthe button"));
}

#[test]
fn a_served_box_is_tallied() {
    let t = BootTally { acked: false, ignored: 0 };
    let (s, t) = boot_news(t, &BootNews::Listening);
    assert_eq!(printed(&s), v(&["out   listening: dhcp/67 tftp/69"]));
    let (s, t) = boot_news(t, &BootNews::Answered { saw: 1, kind: 2 });
    assert_eq!((printed(&s), t.acked), (v(&["out   dhcp  Discover -> Offer"]), false));
    let (s, t) = boot_news(t, &BootNews::Ignored);
    assert_eq!((printed(&s), t.ignored), (v(&[]), 1));
    let (s, t) = boot_news(t, &BootNews::Answered { saw: 3, kind: 5 });
    assert_eq!((printed(&s), t.acked), (v(&["out   dhcp  Request -> Ack"]), true));
    let (s, t) = boot_news(t, &BootNews::Silent { saw: 200 });
    assert_eq!((printed(&s), t.acked), (v(&["out   dhcp  Unknown(200) (nothing to say)"]), true));
    let (s, t) = boot_news(t, &BootNews::Failed("no route".into()));
    assert_eq!((printed(&s), t.ignored), (v(&["err   !     no route"]), 1));
    let names = [
        "Unknown(0)", "Discover", "Offer", "Request", "Decline", "Ack", "Nak", "Release", "Inform", "ForceRenew",
        "LeaseQuery", "LeaseUnassigned", "LeaseUnknown", "LeaseActive", "BulkLeaseQuery", "LeaseQueryDone",
        "ActiveLeaseQuery", "LeaseQueryStatus", "Tls", "Unknown(19)",
    ];
    for (i, n) in names.iter().enumerate() {
        assert_eq!(unsent(i as u8, "down"), format!("sending a {n}: down"));
    }
    assert_eq!(unsent(255, "down"), "sending a Unknown(255): down");
}

#[test]
fn the_first_listing_with_anything_in_it_is_the_last() {
    assert_eq!(neighbour_command(0, 0), Some(v(&["arp", "-a"])));
    assert_eq!(neighbour_command(1, 0), Some(v(&["ip", "neigh"])));
    assert_eq!(neighbour_command(2, 0), None);
    assert_eq!(neighbour_command(1, 4), None);
    assert_eq!(address_command(0, 0), Some(v(&["ifconfig"])));
    assert_eq!(address_command(1, 0), Some(v(&["ip", "-4", "-o", "addr"])));
    assert_eq!(address_command(2, 0), Some(v(&["ipconfig"])));
    assert_eq!(address_command(3, 0), None);
    assert_eq!(address_command(1, 1), None);
}
