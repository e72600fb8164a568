use openhc::engine::updates::{Asset, GhRelease};
use openhc::flasher::board::{by_name, from_c4board, Identity, Running};
use openhc::wizard::state::{extra_passwords, fmt_bytes, gate, Conn, Phase, RelInfo, Step, Wizard};
use openhc::wizard::steps::render;

fn id_for(name: &str, running: Running) -> Identity {
    let b = by_name(name).unwrap();
    Identity { board: Some(b), candidates: vec![b], running, version: None, raw: vec![] }
}

#[test]
fn gate_stops_a_board_this_app_cannot_flash() {
    let ea = id_for("ea3-v2", Running::Stock);
    assert!(gate(Step::Check, "1.2.3.4", Some(&ea), ea.board, None).is_none());

    let ca = id_for("ca1", Running::Stock);
    let why = gate(Step::Check, "1.2.3.4", Some(&ca), ca.board, None).unwrap();
    assert!(why.contains("uboot"), "{why}");
}

#[test]
fn gate_stops_a_box_without_a_board() {
    let unsure = from_c4board(None, Some(2), Some(99));
    assert!(unsure.board.is_none());
    assert!(gate(Step::Check, "1.2.3.4", Some(&unsure), None, None).is_some());
    assert!(gate(Step::Check, "1.2.3.4", None, None, None).is_some());
    assert!(gate(Step::Check, "1.2.3.4", None, by_name("ea3-v2"), None).is_some());
    // The model chosen by hand settles it.
    assert!(gate(Step::Check, "1.2.3.4", Some(&unsure), by_name("ea3-v2"), None).is_none());
}

#[test]
fn gate_needs_a_host_then_a_clean_release() {
    assert!(gate(Step::Find, "   ", None, None, None).is_some());
    assert!(gate(Step::Find, "10.0.0.9", None, None, None).is_none());

    let bad = RelInfo { source: "x".into(), kernel_len: 0, problems: vec!["no bzImage".into()], names: vec![] };
    assert!(gate(Step::Images, "h", None, None, Some(&bad)).is_some());
    let good = RelInfo { problems: vec![], ..bad };
    assert!(gate(Step::Images, "h", None, None, Some(&good)).is_none());
}

#[test]
fn bytes_read_like_a_person_wrote_them() {
    assert_eq!(fmt_bytes(512), "512 B");
    assert_eq!(fmt_bytes(2048), "2 KB");
    assert_eq!(fmt_bytes(5_882_368), "5.6 MB");
}

#[test]
fn extra_passwords_treats_blank_as_none() {
    assert!(extra_passwords("   ").is_empty());
    assert_eq!(extra_passwords("  hunter2 "), vec!["hunter2".to_string()]);
}

fn asset(name: &str, url: &str) -> Asset {
    Asset { name: name.into(), url: url.into(), size: 1 }
}

#[test]
fn every_screen_renders_without_panicking() {
    let mut app = Wizard::new("images");
    for step in [Step::Find, Step::Check, Step::Images, Step::Install] {
        app.step = step;
        let w = render(&app, "v1.0.0", "linux");
        assert!(!w.body.items.is_empty());
    }
    app.step = Step::Install;
    app.forced = Some(by_name("ea3-v2").unwrap());
    for phase in [Phase::Writing, Phase::Restarting, Phase::Finishing, Phase::Done, Phase::Failed] {
        app.phase = Some(phase);
        let w = render(&app, "v1.0.0", "linux");
        assert!(!w.body.items.is_empty());
    }

    app.phase = None;
    app.conn = Some(Conn {
        host: "10.0.0.9".into(),
        id: id_for("ea3-v2", Running::Openhc),
        installed_version: Some("old-dev".into()),
    });
    app.latest = Some(GhRelease {
        tag_name: "v9.9.9".into(),
        assets: vec![
            asset("openhc-ea3-v2-v9.9.9.zip", "http://x/a"),
            asset("ohc-flasher-v9.9.9-macos", "http://x/b"),
            asset("ohc-flasher-v9.9.9-windows.exe", "http://x/c"),
            asset("ohc-flasher-v9.9.9-linux", "http://x/d"),
        ],
    });
    app.checked_latest = true;
    for step in [Step::Check, Step::Images] {
        app.step = step;
        let w = render(&app, "v1.0.0", "linux");
        assert!(!w.body.items.is_empty());
        assert!(!w.head.items.is_empty());
    }
}
