use openhc::iod::b64::{decode, encode};
use openhc::iod::events::{Bus, Msg};
use openhc::iod::ir::{parse_pronto, to_pronto, PRONTO_HZ};
use openhc::iod::mqtt::cmd::parse_cmd;
use openhc::iod::mqtt::topics::{self, payload, retained};
use openhc::iod::ops::Cmd;
use openhc::json::{list, object, put, text, Json, Member};

#[test]
fn round_trips_arbitrary_bytes() {
    for case in [vec![], vec![0x8f], vec![0, 1, 2], b"hello".to_vec(), (0u8..=255).collect()] {
        assert_eq!(decode(&encode(&case)), Some(case.clone()), "{case:?}");
    }
}

#[test]
fn matches_known_vectors() {
    assert_eq!(encode(b""), "");
    assert_eq!(encode(b"f"), "Zg==");
    assert_eq!(encode(b"fo"), "Zm8=");
    assert_eq!(encode(b"foo"), "Zm9v");
    assert_eq!(encode(b"foobar"), "Zm9vYmFy");
}

#[test]
fn rejects_junk() {
    assert_eq!(decode("!!!!"), None);
}

#[test]
fn state_deltas_only_fire_on_change() {
    let mut bus = Bus::new();
    let mut seen = Vec::new();
    for v in [false, false, true] {
        if let Some(e) = bus.set("contact/0", Json::Bool(v)) {
            if let Msg::State { path, value } = e.msg {
                seen.push((path, value));
            }
        }
    }
    assert_eq!(seen.len(), 2, "duplicate writes must not publish: {seen:?}");
}

#[test]
fn snapshot_seq_does_not_collide_with_the_next_message() {
    let mut bus = Bus::new();
    assert_eq!(bus.snapshot().seq, 0);
    assert_eq!(bus.set("relay/0", Json::Bool(true)).unwrap().seq, 1);
    assert_eq!(bus.snapshot().seq, 1);
    assert_eq!(bus.set("relay/0", Json::Bool(false)).unwrap().seq, 2);
}

fn obj(members: Vec<(&str, Json)>) -> Json {
    let mut o: Vec<Member> = Vec::new();
    for (k, v) in members {
        put(&mut o, k, v);
    }
    object(o)
}

#[test]
fn doc_nests_paths() {
    let mut bus = Bus::new();
    bus.set("relay/0", Json::Bool(true));
    bus.set("serial/1/baud", Json::Number(9600));
    let want = obj(vec![
        ("relay", obj(vec![("0", Json::Bool(true))])),
        ("serial", obj(vec![("1", obj(vec![("baud", Json::Number(9600))]))])),
    ]);
    assert!(bus.state().doc().equals(&want));
    assert_eq!(bus.state().doc().to_text(), r#"{"relay":{"0":true},"serial":{"1":{"baud":9600}}}"#);
}

#[test]
fn a_learned_code_survives_the_round_trip() {
    let sent = "0000 006D 0002 0000 0062 0017 0018 0017";
    let (hz, us) = parse_pronto(sent).expect("parses");
    assert_eq!(hz, PRONTO_HZ / 0x6d);
    let back = to_pronto(&us, hz);
    let a: Vec<&str> = sent.split_whitespace().collect();
    let b: Vec<&str> = back.split_whitespace().collect();
    assert_eq!(a.len(), b.len(), "{back}");
    for (i, (x, y)) in a.iter().zip(b.iter()).enumerate().skip(4) {
        let (x, y) = (i64::from_str_radix(x, 16).unwrap(), i64::from_str_radix(y, 16).unwrap());
        assert!((x - y).abs() <= 1, "word {i}: {x:#06x} vs {y:#06x} in {back}");
    }
}

#[test]
fn refuses_what_cannot_be_replayed() {
    assert!(parse_pronto("0000 0000 0002 0000 0062").is_err());
    assert!(parse_pronto("0100 006D 0002 0000 0062").is_err());
    assert!(parse_pronto("0000 006D 0000 0000").is_err());
    assert!(parse_pronto("not hex").is_err());
}

#[test]
fn plain_payloads_are_understood() {
    assert!(matches!(parse_cmd("relay/1/set", "ON", None), Some(Cmd::RelaySet { index: 0, on: true })));
    assert!(matches!(parse_cmd("relay/4/set", "off", None), Some(Cmd::RelaySet { index: 3, on: false })));
    assert!(matches!(parse_cmd("relay/2/set", " TOGGLE\n", None), Some(Cmd::RelayToggle { index: 1 })));
    assert!(parse_cmd("relay/1/set", "maybe", None).is_none());
    assert!(parse_cmd("nonsense/thing", "1", None).is_none());
}

#[test]
fn zero_is_not_a_label_any_hardware_carries() {
    assert!(parse_cmd("relay/0/set", "ON", None).is_none());
    assert!(parse_cmd("ir/0/send", "0000 006d", None).is_none());
    assert!(parse_cmd("serial/0/baud", "9600", None).is_none());
}

#[test]
fn raw_takes_any_command() {
    let body = r#"{"op":"serial.baud","index":0,"baud":9600}"#;
    let v: serde_json::Value = serde_json::from_str(body).unwrap();
    assert_eq!(v["op"], "serial.baud");
    let raw = Cmd::SerialBaud {
        index: v["index"].as_u64().unwrap() as usize,
        baud: v["baud"].as_u64().unwrap() as u32,
    };
    let c = parse_cmd("raw", body, Some(raw));
    assert!(matches!(c, Some(Cmd::SerialBaud { index: 0, baud: 9600 })));
    assert!(parse_cmd("raw", "no command", None).is_none());
}

#[test]
fn wildcards_follow_mqtt_rules() {
    assert!(topics::matches("a/b/c", "a/b/c"));
    assert!(topics::matches("a/#", "a/b/c"));
    assert!(topics::matches("#", "a/b/c"));
    assert!(topics::matches("a/+/c", "a/b/c"));
    assert!(!topics::matches("a/+/c", "a/b/d"));
    assert!(!topics::matches("a/+", "a/b/c"));
    assert!(!topics::matches("a/b", "a/bc"));
    assert!(topics::matches("a/#", "a"));
}

#[test]
fn booleans_go_out_as_on_off() {
    assert_eq!(payload(&Json::Bool(true)), "ON");
    assert_eq!(payload(&Json::Bool(false)), "OFF");
    assert_eq!(payload(&Json::Number(115200)), "115200");
}

#[test]
fn retained_covers_every_leaf() {
    let doc = obj(vec![
        ("relay", obj(vec![("0", Json::Bool(true))])),
        ("serial", obj(vec![("0", obj(vec![("baud", Json::Number(9600))]))])),
    ]);
    let mut got: Vec<(String, String)> =
        retained("openhc/box", &doc).into_iter().map(|r| (r.topic, r.payload)).collect();
    got.sort();
    assert_eq!(
        got,
        vec![
            ("openhc/box/state/relay/0".to_string(), "ON".to_string()),
            ("openhc/box/state/serial/0/baud".to_string(), "9600".to_string()),
        ]
    );
}

#[test]
fn a_document_is_written_as_serde_writes_it() {
    let v = obj(vec![
        ("z", list(vec![Json::Nil, Json::Bool(false), Json::Number(7)])),
        ("a", text("say \"hi\"\n\u{1}é")),
        ("m", Json::Raw("-1.5".into())),
    ]);
    let t = v.to_text();
    assert_eq!(t, "{\"a\":\"say \\\"hi\\\"\\n\\u0001é\",\"m\":-1.5,\"z\":[null,false,7]}");
    let back: serde_json::Value = serde_json::from_str(&t).unwrap();
    assert_eq!(back.to_string(), t);
}
