use openhc::json::{object, put, text, Json, Member};
use openhc::ohc_webd::args::parse_args;
use openhc::ohc_webd::board as full;
use openhc::ohc_webd::radio::{
    heard, hex_decode, hex_encode, nominal, radio_tx, reset_command, rx_window, written, Refusal,
};
use openhc::sysmond::history::{env_num, history, now, Series, Store};
use openhc::sysmond::sensors::{mem, mem_used_pct, readings, sensors, slugify, Channel, Chip, Cpu};
use openhc::webd::assets::{etag, fnv1a, mime_for, portal, static_asset, worth_gzip, Asset, Served};
use openhc::webd::board::Board;
use openhc::webd::proxy::{iod_addr, route, sysmond_addr, unreachable_answer, Daemon};
use openhc::webd::spec_doc::{body_of, merge_spec, spec_in, spec_request};
use openhc::webd::system::{iface, interfaces, snapshot};
use openhc::wifi::{answer, apply, connect, scan_cache, wifi_iface, wpa_str};

// ------------------------------------------------------------------------ wifi

#[test]
fn the_wifi_interface_is_the_first_one_named() {
    assert_eq!(wifi_iface("A=1\n OHC_WIFI_IFACE=\"wlan0\"  # the radio\nOHC_WIFI_IFACE=wlan1\n"), "wlan0");
    assert_eq!(wifi_iface("OHC_WIFI_IFACE='wlan2'\n"), "wlan2");
    assert_eq!(wifi_iface("OHC_MODEL=ca1\n"), "");
}

#[test]
fn the_scan_lists_names_and_no_blanks() {
    assert_eq!(scan_cache(" Home \n\n  \nGuest\r\n"), vec!["Home", "Guest"]);
    assert!(scan_cache("").is_empty());
}

#[test]
fn a_crafted_name_cannot_inject_a_line() {
    assert_eq!(wpa_str("a\\b\"c\nd\u{7f}e"), "a\\\\b\\\"cde");
    let j = apply("wlan0", "x\"\n}\nnetwork={", "").unwrap();
    assert_eq!(j.conf.lines().filter(|l| l.starts_with("network={")).count(), 1);
}

#[test]
fn joining_writes_a_station_configuration() {
    let j = apply("wlan0", "Home", "secret word").unwrap();
    assert_eq!(j.ssid, "Home");
    assert_eq!(j.path, "/etc/wpa_supplicant/wpa_supplicant-wlan0.conf");
    assert_eq!(
        j.conf,
        "ctrl_interface=/var/run/wpa_supplicant\nupdate_config=1\n\
         network={\n\tssid=\"Home\"\n\tpsk=\"secret word\"\n}\n"
    );
    assert_eq!(j.command, "sleep 2; /etc/init.d/S41wifi-ap restart >/dev/null 2>&1");
    let open = connect("wlan0", " Home ", None).unwrap();
    assert_eq!(
        open.conf,
        "ctrl_interface=/var/run/wpa_supplicant\nupdate_config=1\nnetwork={\n\tssid=\"Home\"\n\tkey_mgmt=NONE\n}\n"
    );
}

#[test]
fn joining_needs_a_name_and_a_radio() {
    assert_eq!(connect("wlan0", "  ", Some("x")).unwrap_err(), "ssid required");
    assert_eq!(apply("", "Home", "").unwrap_err(), "this board has no wifi radio");
    let (status, doc) = answer(Err("ssid required"));
    assert_eq!((status, doc.to_text().as_str()), (400, r#"{"error":"ssid required"}"#));
    let (status, doc) = answer(Ok("Home"));
    assert_eq!((status, doc.to_text().as_str()), (200, r#"{"joining":"Home"}"#));
}

// --------------------------------------------------------------------- sysmond

fn series(slug: &str, kind: &'static str) -> Series {
    Series { slug: slug.into(), label: slug.to_uppercase(), chip: "c".into(), kind }
}

#[test]
fn the_ring_overwrites_and_the_series_only_grow() {
    let mut s = Store::new(10, 5);
    assert_eq!(s.capacity(), 2);
    s.push(1, &[(series("a", "temp"), 40)], None, None, None);
    s.push(2, &[(series("b", "fan"), 900)], Some(7), Some("0.5".into()), Some(30));
    assert_eq!(s.len(), 2);
    s.push(3, &[(series("b", "fan"), 901), (series("a", "temp"), 41)], None, None, None);
    assert_eq!(s.len(), 2);
    assert_eq!(s.series.len(), 2);
    assert_eq!(s.series[0].slug, "a");
    assert_eq!(s.latest().unwrap().v, vec![Some(41), Some(901)]);
    let all = s.since(0);
    assert_eq!(all.iter().map(|x| x.at).collect::<Vec<_>>(), vec![2, 3]);
    // A sensor that was silent has no value.
    assert_eq!(all[0].v, vec![None, Some(900)]);
    assert_eq!(s.since(3).len(), 1);
}

#[test]
fn the_ring_never_holds_fewer_than_two() {
    assert_eq!(Store::new(0, 0).capacity(), 2);
    assert_eq!(Store::new(6 * 3600, 5).capacity(), 4320);
}

#[test]
fn telemetry_goes_out_as_documents() {
    let mut s = Store::new(10, 5);
    assert_eq!(
        now(&s, None, Some(2048)).to_text(),
        concat_lines(&[
            r#"{"at":null,"cpu":null,"load1":null,"mem_total_kb":2048,"mem_used_pct":null,"#,
            r#""series":[],"uptime_s":null,"values":null}"#,
        ])
    );
    s.push(100, &[(series("a", "temp"), -3)], Some(7), Some("0.5".into()), Some(30));
    assert_eq!(
        now(&s, Some(9), None).to_text(),
        concat_lines(&[
            r#"{"at":100,"cpu":7,"load1":0.5,"mem_total_kb":null,"mem_used_pct":30,"#,
            r#""series":[{"chip":"c","kind":"temp","label":"A","slug":"a"}],"uptime_s":9,"values":[-3]}"#,
        ])
    );
    assert_eq!(
        history(&s, 5, 50, 120).to_text(),
        concat_lines(&[
            r#"{"capacity":2,"held":1,"period_s":5,"samples":"#,
            r#"[{"at":100,"cpu":7,"load1":0.5,"mem_used_pct":30,"v":[-3]}],"#,
            r#""series":[{"chip":"c","kind":"temp","label":"A","slug":"a"}]}"#,
        ])
    );
    assert!(history(&s, 5, 10, 120).to_text().contains(r#""samples":[]"#));
    assert!(history(&s, 5, 0, 120).to_text().contains(r#""at":100"#));
}

fn concat_lines(v: &[&str]) -> String {
    v.concat()
}

fn channel() -> Channel {
    Channel { temp: None, temp_label: None, fan: None, fan_label: None, pwm: None }
}

#[test]
fn sensors_are_read_chip_by_chip_and_collisions_told_apart() {
    let chips = vec![
        Chip {
            path: "hwmon1".into(),
            name: "nct6775\n".into(),
            channels: vec![
                Channel {
                    temp: Some("41900\n".into()),
                    temp_label: Some("CPU Temp\n".into()),
                    fan: Some("1200".into()),
                    pwm: Some("255".into()),
                    ..channel()
                },
                Channel { temp: Some("broken".into()), ..channel() },
                Channel { temp: Some("-1500".into()), ..channel() },
            ],
        },
        Chip {
            path: "hwmon0".into(),
            name: "coretemp".into(),
            channels: vec![Channel {
                temp: Some("50000".into()),
                temp_label: Some("CPU Temp".into()),
                ..channel()
            }],
        },
    ];
    let s = sensors(&chips);
    let temps: Vec<(&str, &str, i64)> = s.temps.iter().map(|r| (r.slug.as_str(), r.label.as_str(), r.value)).collect();
    assert_eq!(
        temps,
        vec![
            ("coretemp-cpu-temp", "CPU Temp", 50),
            ("nct6775-cpu-temp", "CPU Temp", 41),
            ("temp3", "temp3", -1),
        ]
    );
    assert_eq!(s.fans[0].label, "fan1");
    assert_eq!(s.pwm[0].slug, "pwm1");
    let flat = readings(&s);
    let kinds: Vec<&str> = flat.iter().map(|(x, _)| x.kind).collect();
    assert_eq!(kinds, vec!["temp", "temp", "temp", "fan", "pwm"]);
}

#[test]
fn only_eight_channels_are_looked_at() {
    let chips = vec![Chip {
        path: "p".into(),
        name: "n".into(),
        channels: (0..9).map(|i| Channel { pwm: Some(format!("{i}")), ..channel() }).collect(),
    }];
    assert_eq!(sensors(&chips).pwm.len(), 8);
}

#[test]
fn labels_become_slugs() {
    assert_eq!(slugify("CPU Temp (°C)"), "cpu-temp---c");
    assert_eq!(slugify("--"), "");
}

#[test]
fn the_processor_share_comes_from_two_readings() {
    let mut c = Cpu::new();
    let a = "cpu  100 0 100 700 100 0 0\ncpu0 1 2 3\n";
    let b = "cpu  150 0 150 750 150 0 0\n";
    assert!(c.fits(a));
    assert_eq!(c.sample(a), None);
    assert!(c.fits(b));
    assert_eq!(c.sample(b), Some(50));
    // The same counters again: no time went by.
    assert_eq!(c.sample(b), None);
    // Too few counters change nothing.
    assert_eq!(c.sample("cpu 1 2 3\n"), None);
    assert_eq!(c.sample(""), None);
    assert!(!c.fits("cpu 18446744073709551615 1 1 1\n"));
    // Too few counters are not added up.
    assert!(c.fits("cpu 18446744073709551615 1 1\n"));
    assert_eq!(c.sample("cpu 18446744073709551615 1 1\n"), None);
    // No time went by, though the idle counter grew.
    assert!(c.fits("cpu 100 0 100 900 100 0 0\n"));
    assert_eq!(c.sample("cpu 100 0 100 900 100 0 0\n"), None);
    // A span that is long but idle.
    let long = "cpu 300 0 100 9000000000000000000 100\n";
    assert!(c.fits(long));
    assert_eq!(c.sample(long), Some(0));
}

#[test]
fn memory_is_read_by_key() {
    let t = "MemTotal:        2000 kB\nMemFree: 1 kB\nMemAvailable:    500 kB\n";
    assert_eq!(mem(t), Some((2000, 500)));
    assert_eq!(mem("MemTotal: 2000 kB\n"), None);
    assert_eq!(mem_used_pct(2000, 500), Some(75));
    assert_eq!(mem_used_pct(0, 0), None);
}

#[test]
fn environment_numbers_fall_back() {
    assert_eq!(env_num(Some("12"), 5), 12);
    assert_eq!(env_num(Some("soon"), 5), 5);
    assert_eq!(env_num(None, 5), 5);
}

// ------------------------------------------------------------------------ webd

#[test]
fn a_board_has_defaults() {
    let b = Board::load("", None);
    assert_eq!((b.model.as_str(), b.hostname.as_str()), ("unknown", "openhc"));
    assert_eq!((b.uplink_iface.as_str(), b.wifi_iface.as_str()), ("eth0", ""));
    let b = Board::load("OHC_MODEL=hc800\nOHC_UPLINK_IFACE=lan0\nOHC_WIFI_IFACE=wlan0\n", Some("box\n"));
    assert_eq!(
        b.doc().to_text(),
        r#"{"hostname":"box","model":"hc800","uplink_iface":"lan0","wifi_iface":"wlan0"}"#
    );
}

#[test]
fn files_have_types_and_tags() {
    assert_eq!(mime_for("a/index.html"), "text/html; charset=utf-8");
    assert_eq!(mime_for("x.mjs"), "application/javascript");
    assert_eq!(mime_for("font.woff2"), "font/woff2");
    assert_eq!(mime_for("ico"), "image/x-icon");
    assert_eq!(mime_for("README"), "application/octet-stream");
    assert_eq!(fnv1a(b""), 0xcbf29ce484222325);
    assert_eq!(fnv1a(b"a"), 0xaf63dc4c8601ec8c);
    assert_eq!(fnv1a(b"foobar"), 0x85944171f73967e8);
    assert_eq!(etag(b"a"), "\"af63dc4c8601ec8c\"");
    assert!(worth_gzip(100, 89));
    assert!(!worth_gzip(100, 90));
}

const PAGE: Asset =
    Asset { path: "index.html", mime: "text/html; charset=utf-8", etag: "\"1\"", raw: b"page", gzip: None };

const CODE: Asset = Asset {
    path: "assets/a.js",
    mime: "application/javascript",
    etag: "\"2\"",
    raw: b"code",
    gzip: Some(b"zipped"),
};

#[test]
fn the_page_is_served() {
    let v = [PAGE, CODE];
    match static_asset(&v, "/", None, None) {
        Served::File { headers, body } => {
            assert_eq!(body, b"page");
            assert_eq!(headers, vec![("content-type", "text/html; charset=utf-8"), ("etag", "\"1\"")]);
        }
        other => panic!("{other:?}"),
    }
    match static_asset(&v, "/assets/a.js", Some("\"1\""), Some("br, gzip")) {
        Served::File { headers, body } => {
            assert_eq!(body, b"zipped");
            assert!(headers.contains(&("cache-control", "public, max-age=31536000, immutable")));
            assert!(headers.contains(&("content-encoding", "gzip")));
        }
        other => panic!("{other:?}"),
    }
    assert!(matches!(static_asset(&v, "/assets/a.js", Some("\"2\""), None), Served::Unchanged));
    // A path the page routes itself.
    assert!(matches!(static_asset(&v, "/settings", None, None), Served::File { body: b"page", .. }));
    assert!(matches!(static_asset(&[], "/", None, None), Served::Unbuilt));
}

#[test]
fn a_setup_portal_takes_the_browser() {
    assert_eq!(portal(Some(" http://192.168.4.1:8080\n")).as_deref(), Some("http://192.168.4.1:8080"));
    assert_eq!(portal(Some(" \n")), None);
    assert_eq!(portal(None), None);
}

#[test]
fn mounts_come_off_on_the_way_to_a_daemon() {
    assert_eq!(route("/iod/api/io", Some("a=1")), (Daemon::Iod, "/api/io?a=1".to_string()));
    assert_eq!(route("/sys/api/now", None), (Daemon::Sysmond, "/api/now".to_string()));
    assert_eq!(route("/mqtt", None), (Daemon::Iod, "/mqtt".to_string()));
    assert_eq!(route("/iod", None), (Daemon::Iod, "/".to_string()));
    assert_eq!(iod_addr(None), "127.0.0.1:7070");
    assert_eq!(sysmond_addr(Some("10.0.0.1:1")), "10.0.0.1:1");
    assert_eq!(
        unreachable_answer(Daemon::Sysmond, "127.0.0.1:7071", "refused").to_text(),
        r#"{"code":"sysmond_unreachable","error":"cannot reach sysmond at 127.0.0.1:7071: refused"}"#
    );
}

fn obj(members: Vec<(&str, Json)>) -> Json {
    let mut o: Vec<Member> = Vec::new();
    for (k, v) in members {
        put(&mut o, k, v);
    }
    object(o)
}

#[test]
fn a_daemons_paths_are_mounted() {
    let mut doc: Vec<Member> = Vec::new();
    put(&mut doc, "paths", obj(vec![("/api/board", obj(vec![]))]));
    let sub = obj(vec![
        ("tags", Json::List(vec![obj(vec![("name", text("IO"))]), obj(vec![("x", text("unnamed"))])])),
        (
            "paths",
            obj(vec![(
                "/api/io",
                obj(vec![("get", obj(vec![("tags", Json::List(vec![text("IO"), Json::Number(1)]))]))]),
            )]),
        ),
    ]);
    merge_spec(&mut doc, &sub, "/iod", "iod");
    assert_eq!(
        object(doc).to_text(),
        concat_lines(&[
            r#"{"paths":{"/api/board":{},"/iod/api/io":{"get":{"tags":["iod: IO",1]}}},"#,
            r#""tags":[{"name":"iod: IO"}]}"#,
        ])
    );
    let mut same: Vec<Member> = Vec::new();
    merge_spec(&mut same, &obj(vec![("tags", Json::List(vec![]))]), "/iod", "iod");
    assert!(same.is_empty());
}

#[test]
fn an_answer_has_a_body_behind_its_head() {
    assert_eq!(spec_request("h:1"), "GET /api/openapi.json HTTP/1.0\r\nHost: h:1\r\n\r\n");
    assert_eq!(body_of(b"HTTP/1.0 200 OK\r\nA: b\r\n\r\n{}\r\n\r\n"), Some(&b"{}\r\n\r\n"[..]));
    assert_eq!(body_of(b"HTTP/1.0 200 OK\r\n"), None);
    let shown = |b: &[u8]| spec_in(b).map(|j| j.to_text());
    let answer = b"HTTP/1.0 200 OK\r\n\r\n {\"b\": [1, -2.5, null, true], \"a\": {\"x\": \"\\u00e9\\r\\n\"}}\r\n\r\n";
    assert_eq!(shown(answer).as_deref(), Some(r#"{"a":{"x":"é\r\n"},"b":[1,-2.5,null,true]}"#));
    assert_eq!(shown(b"HTTP/1.0 500 no\r\n\r\nsorry"), None);
    assert_eq!(shown(b"HTTP/1.0 200 OK\r\n"), None);
    assert_eq!(shown(b"HTTP/1.0 200 OK\r\n\r\n{} {}"), None);
    let mut doc = Vec::new();
    let sub = spec_in(b"\r\n\r\n{\"paths\":{\"/api/x\":{\"get\":{\"tags\":[\"io\"]}}}}").unwrap();
    merge_spec(&mut doc, &sub, "/iod", "iod");
    assert_eq!(object(doc).to_text(), r#"{"paths":{"/iod/api/x":{"get":{"tags":["iod: io"]}}}}"#);
}

#[test]
fn interfaces_are_shown_without_the_loopback() {
    let names: Vec<String> = ["wlan0", "lo", "eth0"].iter().map(|s| s.to_string()).collect();
    assert_eq!(interfaces(&names), vec!["eth0", "wlan0"]);
    let i = iface("eth0", Some(b"2: eth0    inet 10.0.0.5/24 brd 10.0.0.255"), Some("1\n"));
    assert_eq!((i.ip.as_str(), i.carrier), ("10.0.0.5/24", true));
    let j = iface("wlan0", None, None);
    assert_eq!((j.ip.as_str(), j.carrier), ("", false));
    assert_eq!(
        snapshot(Some("box"), Some("6.1\n"), "12.5", None, &vec![i]).to_text(),
        concat_lines(&[
            r#"{"hostname":"box","interfaces":[{"carrier":true,"ip":"10.0.0.5/24","name":"eth0"}],"#,
            r#""kernel":"6.1","loadavg":"","uptime":12.5}"#,
        ])
    );
}

// -------------------------------------------------------------------- ohc-webd

const ENV: &str = "OHC_MODEL=ca1\nOHC_RADIOS=\"zwave:/dev/ttymxc2 bad zigbee:/dev/ttymxc1\"\n\
                   OHC_SERIALS='ttymxc3:RS_232:9600 ttymxc4:Combo ttymxc5:x:fast'\n";

#[test]
fn a_board_declares_its_radios_and_ports() {
    let b = full::Board::load(ENV, Some("box"));
    assert_eq!(b.radio_dev("zigbee").as_deref(), Some("/dev/ttymxc1"));
    assert_eq!(b.radio_dev("bad"), None);
    assert_eq!(b.serial_baud("/dev/ttymxc3"), 9600);
    assert_eq!(b.serial_baud("/dev/ttymxc5"), 115200);
    assert_eq!(b.serial_baud("/dev/other"), 115200);
    assert_eq!(b.terminal("ttymxc3"), Some(("/dev/ttymxc3".to_string(), 9600)));
    assert_eq!(b.terminal("ttymxc9"), None);
    let t = full::board_json(&b).to_text();
    assert!(t.contains(r#""radios":[{"dev":"/dev/ttymxc2","type":"zwave"},{"dev":"/dev/ttymxc1","type":"zigbee"}]"#));
    assert!(t.contains(r#"{"baud":9600,"dev":"/dev/ttymxc3","label":"RS 232"}"#));
}

#[test]
fn hexadecimal_reads_back() {
    let all: Vec<u8> = (0..=255).collect();
    assert_eq!(hex_decode(&hex_encode(&all)), Ok(all));
    assert_eq!(hex_encode(&[0, 0x0f, 0xff]), "000fff");
    assert_eq!(hex_decode(" 0A\n0b "), Ok(vec![10, 11]));
    assert_eq!(hex_decode("abc"), Err(()));
    assert_eq!(hex_decode("zz"), Err(()));
    assert_eq!(hex_decode(""), Ok(vec![]));
}

#[test]
fn a_radio_is_written_or_refused() {
    let b = full::Board::load(ENV, None);
    assert_eq!(radio_tx(&b, "zwave", Some("01 ff"), Some("x")), Ok(("/dev/ttymxc2".to_string(), vec![1, 255])));
    assert_eq!(radio_tx(&b, "zwave", None, Some("hé")).unwrap().1, "hé".as_bytes());
    assert_eq!(radio_tx(&b, "zwave", None, None).unwrap().1, b"");
    assert_eq!(radio_tx(&b, "zwave", Some("0"), None), Err(Refusal::BadHex));
    assert_eq!(radio_tx(&b, "thread", Some("0"), None), Err(Refusal::NoSuchRadio));
    assert_eq!((Refusal::NoSuchRadio.status(), Refusal::NoSuchRadio.message()), (404, "no such radio"));
    assert_eq!((Refusal::BadHex.status(), Refusal::BadHex.message()), (400, "bad hex"));
    assert_eq!(written(3).to_text(), r#"{"written":3}"#);
    assert_eq!(heard(b"A\xff").to_text(), "{\"hex\":\"41ff\",\"text\":\"A\u{fffd}\"}");
    assert_eq!(reset_command("zwave"), "gpioset -m time -u 200000 $(gpiofind zwave_reset)");
    assert_eq!((rx_window(None), rx_window(Some(20)), rx_window(Some(9000))), (500, 20, 5000));
    assert_eq!((nominal(921600), nominal(300)), (921600, 115200));
}

#[test]
fn the_command_line_is_read() {
    let v = |a: &[&str]| -> Vec<String> { a.iter().map(|s| s.to_string()).collect() };
    let c = parse_args(&v(&["--bind", "1.2.3.4:5", "noise", "--board-env"])).unwrap();
    assert_eq!((c.bind.as_str(), c.board_env.as_str()), ("1.2.3.4:5", "/opt/ohc/board.env"));
    assert!(parse_args(&v(&["--help"])).is_none());
    assert_eq!(parse_args(&v(&[])).unwrap().bind, "0.0.0.0:80");
}
