use magic_wormhole::json::Json;
use magic_wormhole::transfer::{
    direct_type, error_message, file_ack, message, message_ack, offer_file, relay_type, transit,
    transit_ack, Abilities, AnswerType, DirectType, Hints, OfferType, PeerMessage, RelayType,
    TransitAck, TransitType,
};

fn sample_transit() -> PeerMessage {
    transit(
        vec![
            Abilities { ttype: "direct-tcp-v1".to_string() },
            Abilities { ttype: "relay-v1".to_string() },
        ],
        vec![
            Hints::DirectTcpV1(direct_type("0.0", "192.168.1.8", 46295)),
            Hints::RelayV1(relay_type(vec![direct_type("0.0", "transit.magic-wormhole.io", 4001)])),
        ],
    )
}

#[test]
fn message_offer_is_written_as_json() {
    assert_eq!(message("hello").serialize(), r#"{"offer":{"message":"hello"}}"#);
    assert_eq!(
        message("say \"hi\"\n").serialize(),
        r#"{"offer":{"message":"say \"hi\"\n"}}"#
    );
}

#[test]
fn file_offer_is_written_as_json() {
    assert_eq!(
        offer_file("a.bin", 4096).serialize(),
        r#"{"offer":{"file":{"filename":"a.bin","filesize":4096}}}"#
    );
    assert_eq!(
        offer_file("big", u64::MAX).serialize(),
        r#"{"offer":{"file":{"filename":"big","filesize":18446744073709551615}}}"#
    );
    assert_eq!(
        offer_file("", 0).serialize(),
        r#"{"offer":{"file":{"filename":"","filesize":0}}}"#
    );
}

#[test]
fn answers_and_errors_are_written_as_json() {
    assert_eq!(message_ack("ok").serialize(), r#"{"answer":{"message_ack":"ok"}}"#);
    assert_eq!(file_ack("ok").serialize(), r#"{"answer":{"file_ack":"ok"}}"#);
    assert_eq!(error_message("no").serialize(), r#"{"error":"no"}"#);
}

#[test]
fn transit_is_written_as_json() {
    assert_eq!(
        sample_transit().serialize(),
        concat_all(&[
            r#"{"transit":{"abilities_v1":[{"type":"direct-tcp-v1"},{"type":"relay-v1"}],"#,
            r#""hints_v1":[{"hostname":"192.168.1.8","port":46295,"priority":0.0,"type":"direct-tcp-v1"},"#,
            r#"{"hints":[{"hostname":"transit.magic-wormhole.io","port":4001,"priority":0.0,"type":"direct-tcp-v1"}],"#,
            r#""type":"relay-v1"}]}}"#,
        ])
    );
}

fn concat_all(parts: &[&str]) -> String {
    let mut all = String::new();
    for part in parts {
        all.push_str(part);
    }
    all
}

#[test]
fn transit_ack_is_written_as_json() {
    assert_eq!(
        transit_ack("ok", "00ff").serialize(),
        r#"{"ack":"ok","sha256":"00ff"}"#
    );
}

#[test]
fn peer_messages_read_back() {
    for sample in [
        message("hello"),
        offer_file("a.bin", 4096),
        message_ack("ok"),
        file_ack("ok"),
        error_message("transfer rejected"),
        sample_transit(),
        PeerMessage::Offer(OfferType::Directory {
            dirname: "d".to_string(),
            mode: "zipfile/deflated".to_string(),
            zipsize: 1,
            numbytes: 2,
            numfiles: 3,
        }),
    ] {
        let text = sample.serialize();
        assert_eq!(PeerMessage::deserialize(&text), Some(sample));
    }
}

#[test]
fn peer_message_from_another_client_reads() {
    let text = r#"{"transit": {"abilities_v1": [{"type": "direct-tcp-v1"}],
        "hints_v1": [{"type": "direct-tcp-v1", "priority": 0.5, "hostname": "10.0.0.1", "port": 80, "extra": true}]}}"#;
    let expected = PeerMessage::Transit(TransitType {
        abilities_v1: vec![Abilities { ttype: "direct-tcp-v1".to_string() }],
        hints_v1: vec![Hints::DirectTcpV1(DirectType {
            priority: "0.5".to_string(),
            hostname: "10.0.0.1".to_string(),
            port: 80,
        })],
    });
    assert_eq!(PeerMessage::deserialize(text), Some(expected));
}

#[test]
fn directory_offer_reads() {
    let text = r#"{"offer":{"directory":{"dirname":"d","mode":"zipfile/deflated","zipsize":10,"numbytes":20,"numfiles":2}}}"#;
    assert_eq!(
        PeerMessage::deserialize(text),
        Some(PeerMessage::Offer(OfferType::Directory {
            dirname: "d".to_string(),
            mode: "zipfile/deflated".to_string(),
            zipsize: 10,
            numbytes: 20,
            numfiles: 2,
        }))
    );
}

#[test]
fn malformed_peer_messages_are_refused() {
    for text in [
        "",
        "not json",
        "[]",
        "{}",
        r#"{"offer":{}}"#,
        r#"{"offer":{"message":5}}"#,
        r#"{"offer":{"file":{"filename":"a"}}}"#,
        r#"{"offer":{"file":{"filename":"a","filesize":-1}}}"#,
        r#"{"offer":{"file":{"filename":"a","filesize":1.5}}}"#,
        r#"{"offer":{"file":{"filename":"a","filesize":"7"}}}"#,
        r#"{"offer":{"file":{"filename":"a","filesize":18446744073709551616}}}"#,
        r#"{"answer":{}}"#,
        r#"{"answer":{"file_ack":1}}"#,
        r#"{"error":{}}"#,
        r#"{"transit":{}}"#,
        r#"{"transit":{"abilities_v1":[],"hints_v1":[{"type":"tor-v9"}]}}"#,
        r#"{"transit":{"abilities_v1":[{}],"hints_v1":[]}}"#,
        r#"{"transit":{"abilities_v1":[],"hints_v1":[{"type":"direct-tcp-v1","priority":0.0,"hostname":"h","port":65536}]}}"#,
        r#"{"transit":{"abilities_v1":[],"hints_v1":[{"type":"direct-tcp-v1","hostname":"h","port":1}]}}"#,
        r#"{"transit":{"abilities_v1":[],"hints_v1":[{"type":"relay-v1","hints":[{"hostname":"h"}]}]}}"#,
        r#"{"transit":{"abilities_v1":[],"hints_v1":[{"type":"relay-v1"}]}}"#,
    ] {
        assert_eq!(PeerMessage::deserialize(text), None, "{}", text);
    }
}

#[test]
fn the_first_known_member_decides_the_kind() {
    assert_eq!(
        PeerMessage::deserialize(r#"{"error":"e","answer":{"file_ack":"ok"}}"#),
        Some(PeerMessage::Answer(AnswerType::FileAck("ok".to_string())))
    );
    assert_eq!(
        PeerMessage::deserialize(r#"{"answer":{"file_ack":"no","message_ack":"yes"}}"#),
        Some(PeerMessage::Answer(AnswerType::MessageAck("yes".to_string())))
    );
}

#[test]
fn transit_ack_reads_back() {
    let ack = transit_ack("ok", "abcdef");
    assert_eq!(TransitAck::deserialize(&ack.serialize()), Some(ack));
    assert_eq!(
        TransitAck::deserialize(r#"{"sha256":"12","ack":"error","more":1}"#),
        Some(TransitAck { ack: "error".to_string(), sha256: "12".to_string() })
    );
    assert_eq!(TransitAck::deserialize(r#"{"ack":"ok"}"#), None);
    assert_eq!(TransitAck::deserialize(r#"{"sha256":"12"}"#), None);
    assert_eq!(TransitAck::deserialize(r#"{"ack":"ok","sha256":12}"#), None);
    assert_eq!(TransitAck::deserialize("nope"), None);
}

#[test]
fn constructors_fill_the_fields() {
    assert_eq!(
        direct_type("0.0", "host", 7),
        DirectType { priority: "0.0".to_string(), hostname: "host".to_string(), port: 7 }
    );
    assert_eq!(
        relay_type(vec![direct_type("0.0", "r", 1)]),
        RelayType { hints: vec![direct_type("0.0", "r", 1)] }
    );
    assert_eq!(message("m"), PeerMessage::Offer(OfferType::Message("m".to_string())));
    assert_eq!(
        offer_file("f", 9),
        PeerMessage::Offer(OfferType::File { filename: "f".to_string(), filesize: 9 })
    );
}

#[test]
fn json_documents_parse_and_render() {
    let doc = Json::parse(r#" {"b": [1, 2.5, "x", null, true], "a": {"k": "v"}} "#).unwrap();
    assert_eq!(doc.render(), r#"{"a":{"k":"v"},"b":[1,2.5,"x",null,true]}"#);
    assert_eq!(doc.member("a").unwrap().text_member("k"), Some(&"v".to_string()));
    assert_eq!(doc.member("c"), None);
    assert_eq!(doc.text_member("a"), None);
    let list = doc.member("b").unwrap().as_list().unwrap();
    assert_eq!(list.len(), 5);
    assert_eq!(list[0], Json::Number("1".to_string()));
    assert_eq!(list[1].as_number(), Some(&"2.5".to_string()));
    assert_eq!(list[2].as_text(), Some(&"x".to_string()));
    assert_eq!(list[3], Json::Null);
    assert_eq!(list[4], Json::Bool(true));
    assert_eq!(Json::parse("{"), None);
    assert_eq!(Json::parse(r#"{"a":1} x"#), None);
    assert_eq!(doc.into_member("a"), Some(Json::Object(vec![("k".to_string(), Json::text("v"))])));
}

#[test]
fn json_lookup_finds_the_first_member_of_a_name() {
    let doc = Json::object(vec![
        ("k".to_string(), Json::text("first")),
        ("k".to_string(), Json::text("second")),
        ("n".to_string(), Json::Number("12".to_string())),
    ]);
    assert_eq!(doc.text_member("k"), Some(&"first".to_string()));
    assert_eq!(doc.number_member("n"), Some(&"12".to_string()));
    assert_eq!(doc.number_member("k"), None);
    assert_eq!(Json::list(vec![]).member("k"), None);
    assert_eq!(Json::text("t").into_member("k"), None);
}
