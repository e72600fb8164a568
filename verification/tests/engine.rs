use std::io::Write;
use openhc::engine::flow::{Event, Log};
use openhc::engine::mfgmode::{MfgWatch, Stage};
use openhc::engine::netboot::inter_command_gap;
use openhc::engine::network::{parse_autoscript_sizes, ram_autoscript, INITRD_SLOT, KERNEL_SLOT};
use openhc::engine::updates::{
    differs_from_release, needs_unpacking, resolve_executable, Asset, BundleFault, GhRelease,
};
use openhc::flasher::cefdk;

fn awaits(log: &Log) -> Vec<String> {
    log.events
        .iter()
        .filter_map(|e| match e {
            Event::Await { title, .. } => Some(title.clone()),
            _ => None,
        })
        .collect()
}

#[test]
fn happy_path_reaches_the_shell() {
    let mut p = Log::new();
    let mut w = MfgWatch::new();
    w.feed("CEFDK 1.2.3 booting", &mut p);
    w.feed("Manufacturing Mode: Enabled", &mut p);
    assert_eq!(w.stage(), Stage::WaitingForCookie);
    w.feed("Entering Control4 Manufacturing Mode", &mut p);
    assert_eq!(w.stage(), Stage::WaitingForShell);
    w.feed("shell>", &mut p);
    assert_eq!(w.stage(), Stage::AtShell);
}

#[test]
fn a_bare_shell_prompt_before_the_cookie_is_not_a_shell() {
    let mut p = Log::new();
    let mut w = MfgWatch::new();
    w.feed("shell>", &mut p);
    w.feed("shell> emmc rd 0x800400 0x6000000 0x561000", &mut p);
    assert_eq!(w.stage(), Stage::WaitingForPowerCycle, "autoscript echo must not be mistaken for a prompt");
}

#[test]
fn a_disabled_mode_line_tells_the_user_to_retry() {
    let mut p = Log::new();
    let mut w = MfgWatch::new();
    w.feed("Manufacturing Mode: Disabled", &mut p);
    assert_eq!(w.stage(), Stage::ButtonNotHeld);
    let a = awaits(&p);
    assert_eq!(a.len(), 1);
    assert!(a[0].contains("not registered"), "got {:?}", a);
}

#[test]
fn ac_boot_after_manufacturing_mode_is_reported_as_a_refused_cookie() {
    let mut p = Log::new();
    let mut w = MfgWatch::new();
    w.feed("Manufacturing Mode: Enabled", &mut p);
    w.feed("AC_BOOT: booting from eMMC", &mut p);
    assert_eq!(w.stage(), Stage::CookieRejected);
}

#[test]
fn ac_boot_before_manufacturing_mode_is_just_a_normal_boot() {
    let mut p = Log::new();
    let mut w = MfgWatch::new();
    w.feed("AC_BOOT: booting from eMMC", &mut p);
    assert_eq!(w.stage(), Stage::WaitingForPowerCycle);
}

#[test]
fn ordinary_lines_are_surfaced_as_evidence_not_dropped() {
    let mut p = Log::new();
    let mut w = MfgWatch::new();
    w.feed("CEFDK version 1.2.3", &mut p);
    let seen = p.events.iter().any(|e| matches!(e, Event::Observed(s) if s.contains("CEFDK version")));
    assert!(seen, "a waiting user must see that lines are arriving");
}

#[test]
fn silence_is_reported_with_something_actionable() {
    let mut p = Log::new();
    let w = MfgWatch::new();
    w.tick(45, &mut p);
    let said = p.events.iter().any(|e| matches!(e, Event::Detail(s) if s.contains("serial cable")));
    assert!(said, "a silent port should name the likely cause");
}

#[test]
fn only_tftp_gets_the_long_gap() {
    assert!(inter_command_gap("tftp get 10.0.0.106 0x6000000 bzImage") >= 1000);
    assert!(inter_command_gap("cache flush") < 1000);
    assert!(inter_command_gap("ord4 0xc90a4 = 0x6000000") < 1000);
}

#[test]
fn the_ramboot_default_carries_its_ea_quirks() {
    let c = cefdk::RAMBOOT_CMDLINE;
    assert!(c.contains("routeirq"), "EA SoC UARTs need routeirq: {c}");
    assert!(c.contains("nocrs"), "CEFDK E820 omits PCI windows: {c}");
}

#[test]
fn autoscript_sizes_round_trip() {
    assert_eq!(parse_autoscript_sizes("KSZ=5625856\nRSZ=4100608\n"), Some((5625856, 4100608)));
    assert_eq!(parse_autoscript_sizes(" KSZ=10 \n RSZ=20 \n"), Some((10, 20)));
    assert_eq!(parse_autoscript_sizes("KSZ=1\n"), None, "a half-written manifest is not usable");
    assert_eq!(parse_autoscript_sizes("KSZ=abc\nRSZ=2\n"), None, "garbage must not read as a size");
    assert_eq!(parse_autoscript_sizes(""), None);
}

#[test]
fn autoscript_reads_the_whole_slot_not_the_image() {
    let s = ram_autoscript(5_625_728, 4_100_761);
    assert!(
        s.iter().any(|l| l.contains(&format!("{KERNEL_SLOT:#x}"))),
        "kernel read must be the full slot: {s:?}"
    );
    assert!(
        s.iter().any(|l| l.contains(&format!("{INITRD_SLOT:#x}"))),
        "initrd read must be the full slot: {s:?}"
    );
    assert!(6_482_404 < INITRD_SLOT, "the oversize initrd fits the padded slot");
}

fn asset(name: &str, url: &str) -> Asset {
    Asset { name: name.into(), url: url.into(), size: 10 }
}

fn rel() -> GhRelease {
    GhRelease {
        tag_name: "v1.2.0".into(),
        assets: vec![
            asset("openhc-ea3-v2-v1.2.0.zip", "http://x/a"),
            asset("openhc-ca1-v1.2.0.zip", "http://x/b"),
            asset("ohc-flasher-v1.2.0-macos.zip", "http://x/c"),
            asset("ohc-flasher-v1.2.0-windows.exe", "http://x/d"),
        ],
    }
}

#[test]
fn picks_the_right_board_bundle() {
    assert_eq!(rel().image_asset("ea3-v2").unwrap().name, "openhc-ea3-v2-v1.2.0.zip");
    assert_eq!(rel().image_asset("ca1").unwrap().name, "openhc-ca1-v1.2.0.zip");
    assert!(rel().image_asset("hc800").is_none());
}

#[test]
fn picks_the_flasher_for_the_system() {
    assert_eq!(rel().flasher_asset("windows").unwrap().url, "http://x/d");
    assert_eq!(rel().flasher_asset("macos").unwrap().url, "http://x/c");
    assert!(rel().flasher_asset("linux").is_none());
}

#[test]
fn resolve_passes_a_bare_binary_through() {
    let p = std::path::Path::new("/tmp/ohc-flasher-x-linux");
    assert!(!needs_unpacking(p.extension().and_then(|e| e.to_str())));
    assert!(needs_unpacking(Some("zip")));
    assert!(needs_unpacking(Some("ZIP")));
}

fn zipped(files: &[(&str, &[u8])]) -> Vec<u8> {
    let mut w = zip::ZipWriter::new(std::io::Cursor::new(Vec::new()));
    for (name, data) in files {
        let opts: zip::write::FileOptions<()> =
            zip::write::FileOptions::default().compression_method(zip::CompressionMethod::Stored);
        w.start_file(*name, opts).unwrap();
        w.write_all(data).unwrap();
    }
    w.finish().unwrap().into_inner()
}

#[test]
fn resolve_extracts_the_app_binary_from_a_zip() {
    let bytes = zipped(&[("ohc-flasher.app/Contents/MacOS/ohc-flasher", b"\x7fELF-not-really")]);
    let (name, data) = resolve_executable(bytes).unwrap();
    assert_eq!(name, "ohc-flasher");
    assert_eq!(data, b"\x7fELF-not-really");
}

#[test]
fn a_bundle_without_a_binary_is_refused() {
    let bytes = zipped(&[("readme.txt", b"hello")]);
    assert!(matches!(resolve_executable(bytes), Err(BundleFault::Nothing)));
    assert!(matches!(resolve_executable(b"no archive".to_vec()), Err(BundleFault::Open(_))));
}

#[test]
fn update_signal_is_an_honest_inequality() {
    assert!(differs_from_release("abc1234-dev", "v1.2.0"));
    assert!(differs_from_release("v1.1.0", "v1.2.0"));
    assert!(!differs_from_release("v1.2.0", "v1.2.0"));
    assert!(!differs_from_release("", "v1.2.0"));
    assert!(!differs_from_release("unknown", "v1.2.0"));
}
