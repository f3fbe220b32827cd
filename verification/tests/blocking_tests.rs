use magic_wormhole::handshake::{HostType, Role};
use magic_wormhole::io::blocking::{
    derive_transit_key, make_transit_message, read_peer_message, receive, receive_file, send,
    send_file, After, FileTransfer, MessageType, ReceivePlan, RelayUrl, RelayUrlError, SendPlan,
    TransferError, TransferState,
};
use magic_wormhole::io::hints::{
    build_direct_hints, build_relay_hints, direct_hints_from, get_direct_relay_hosts, Address,
    Host, Interface,
};
use magic_wormhole::transfer::{
    direct_type, error_message, file_ack, message, message_ack, offer_file, relay_type, transit,
    Abilities, Hints, OfferType, PeerMessage, TransitType,
};
use magic_wormhole::transit::TransitError;
use sha2::Sha256;
use std::str::FromStr;

fn relay() -> RelayUrl {
    RelayUrl { host: "relay.example".to_string(), port: 4001 }
}

fn peer_transit() -> TransitType {
    TransitType {
        abilities_v1: vec![Abilities { ttype: "direct-tcp-v1".to_string() }],
        hints_v1: vec![
            Hints::RelayV1(relay_type(vec![direct_type("0.0", "relay-a", 1), direct_type("0.0", "relay-b", 2)])),
            Hints::DirectTcpV1(direct_type("0.0", "10.0.0.1", 5000)),
            Hints::RelayV1(relay_type(vec![direct_type("0.0", "relay-c", 3)])),
            Hints::DirectTcpV1(direct_type("0.0", "10.0.0.2", 5001)),
        ],
    }
}

fn host(host_type: HostType, name: &str, port: u16) -> Host {
    Host { host_type, endpoint: direct_type("0.0", name, port) }
}

fn bytes(message: &PeerMessage) -> Vec<u8> {
    message.serialize().into_bytes()
}

#[test]
fn relay_url_parses() {
    assert_eq!(
        RelayUrl::parse("tcp:transit.magic-wormhole.io:4001"),
        Ok(RelayUrl { host: "transit.magic-wormhole.io".to_string(), port: 4001 })
    );
    assert_eq!(RelayUrl::parse("tcp::0"), Ok(RelayUrl { host: String::new(), port: 0 }));
    assert_eq!(RelayUrl::parse("tcp:h:65535"), Ok(RelayUrl { host: "h".to_string(), port: 65535 }));
    assert_eq!(RelayUrl::parse("tcp:h:+80"), Ok(RelayUrl { host: "h".to_string(), port: 80 }));
    assert_eq!(RelayUrl::parse("tcp:h:0080"), Ok(RelayUrl { host: "h".to_string(), port: 80 }));
    assert_eq!(
        RelayUrl::parse("tcp:h\u{e9}te:9"),
        Ok(RelayUrl { host: "h\u{e9}te".to_string(), port: 9 })
    );
}

#[test]
fn relay_url_errors() {
    for text in ["", "tcp", "tcp:host", "udp:host:1", "TCP:host:1", "tcp:a:b:1", ":::", "tcp:h:1:"] {
        assert_eq!(RelayUrl::parse(text), Err(RelayUrlError::Format), "{}", text);
    }
    for text in ["tcp:h:", "tcp:h:x", "tcp:h:65536", "tcp:h:-1", "tcp:h: 1", "tcp:h:+", "tcp:h:1.0",
        "tcp:h:99999999999999999999"]
    {
        assert_eq!(RelayUrl::parse(text), Err(RelayUrlError::Port), "{}", text);
    }
}

#[test]
fn relay_url_from_str_agrees_with_std() {
    assert_eq!(RelayUrl::from_str("tcp:h:12"), Ok(RelayUrl { host: "h".to_string(), port: 12 }));
    assert_eq!(RelayUrl::from_str("tcp:h:x"), Err("Cannot parse relay url port"));
    assert_eq!(RelayUrl::from_str("http://h"), Err("Incorrect relay server url format"));
    for port in ["0", "+7", "007", "65535", "65536", "", "+", "-0", "1e3", "12a"] {
        let expected = port.parse::<u16>().ok();
        let got = RelayUrl::parse(&format!("tcp:h:{}", port)).ok().map(|r| r.port);
        assert_eq!(got, expected, "{}", port);
    }
}

#[test]
fn transit_key_is_derived_for_the_application() {
    let key = [7u8; 32];
    let mut expected = [0u8; 32];
    hkdf::Hkdf::<Sha256>::new(None, &key)
        .expand(b"lothar.com/wormhole/text-or-file-xfer/transit-key", &mut expected)
        .unwrap();
    assert_eq!(
        derive_transit_key(&key, "lothar.com/wormhole/text-or-file-xfer"),
        expected.to_vec()
    );
}

#[test]
fn relay_hints_name_the_relay() {
    assert_eq!(
        build_relay_hints(&relay()),
        vec![Hints::RelayV1(relay_type(vec![direct_type("0.0", "relay.example", 4001)]))]
    );
}

#[test]
fn direct_hints_take_the_first_address_that_is_no_loopback() {
    let interfaces = vec![
        Interface {
            loopback: true,
            addresses: vec![Address { ipv4: true, text: "127.0.0.1".to_string() }],
        },
        Interface {
            loopback: false,
            addresses: vec![Address { ipv4: false, text: "fe80::1".to_string() }],
        },
        Interface {
            loopback: false,
            addresses: vec![
                Address { ipv4: false, text: "fe80::2".to_string() },
                Address { ipv4: true, text: "192.168.0.9".to_string() },
                Address { ipv4: true, text: "192.168.0.10".to_string() },
            ],
        },
        Interface {
            loopback: false,
            addresses: vec![Address { ipv4: true, text: "10.1.1.1".to_string() }],
        },
    ];
    assert_eq!(
        direct_hints_from(&interfaces, 4242),
        vec![Hints::DirectTcpV1(direct_type("0.0", "192.168.0.9", 4242))]
    );
    let mut interfaces = interfaces;
    interfaces.truncate(2);
    assert_eq!(direct_hints_from(&interfaces, 1), vec![]);
    assert_eq!(direct_hints_from(&vec![], 1), vec![]);
}

#[test]
fn direct_hints_of_this_machine_are_at_most_one() {
    let hints = build_direct_hints(1234);
    assert!(hints.len() <= 1);
    for hint in hints {
        match hint {
            Hints::DirectTcpV1(d) => {
                assert_eq!(d.port, 1234);
                assert_eq!(d.priority, "0.0");
                let parts: Vec<&str> = d.hostname.split('.').collect();
                assert_eq!(parts.len(), 4);
                assert!(parts.iter().all(|p| p.parse::<u8>().is_ok()));
                assert_ne!(d.hostname, "127.0.0.1");
            }
            other => panic!("no direct hint: {:?}", other),
        }
    }
}

#[test]
fn hosts_are_the_direct_hints_and_those_of_every_relay() {
    let (direct, relay) = get_direct_relay_hosts(&peer_transit());
    assert_eq!(
        direct,
        vec![host(HostType::Direct, "10.0.0.1", 5000), host(HostType::Direct, "10.0.0.2", 5001)]
    );
    assert_eq!(
        relay,
        vec![
            host(HostType::Relay, "relay-a", 1),
            host(HostType::Relay, "relay-b", 2),
            host(HostType::Relay, "relay-c", 3),
        ]
    );
    let none = TransitType { abilities_v1: vec![], hints_v1: vec![] };
    assert_eq!(get_direct_relay_hosts(&none), (vec![], vec![]));
}

#[test]
fn transit_message_lists_abilities_and_hints() {
    let sent = make_transit_message(
        vec![Hints::DirectTcpV1(direct_type("0.0", "1.2.3.4", 9))],
        build_relay_hints(&relay()),
    );
    let expected = transit(
        vec![
            Abilities { ttype: "direct-tcp-v1".to_string() },
            Abilities { ttype: "relay-v1".to_string() },
        ],
        vec![
            Hints::DirectTcpV1(direct_type("0.0", "1.2.3.4", 9)),
            Hints::RelayV1(relay_type(vec![direct_type("0.0", "relay.example", 4001)])),
        ],
    );
    assert_eq!(read_peer_message(&sent), Some(expected));
}

#[test]
fn sending_a_file_over_the_first_direct_host() {
    let (mut transfer, step) = FileTransfer::begin_send(
        "a.bin",
        4096,
        vec![Hints::DirectTcpV1(direct_type("0.0", "1.2.3.4", 9))],
        build_relay_hints(&relay()),
    );
    assert_eq!(transfer.role, Role::Sender);
    assert_eq!(transfer.state, TransferState::AwaitTransit);
    assert_eq!(step.after, After::AwaitMessage);
    assert!(matches!(read_peer_message(&step.send.unwrap()), Some(PeerMessage::Transit(_))));

    let step = transfer.on_message(&bytes(&PeerMessage::Transit(peer_transit())));
    assert_eq!(transfer.state, TransferState::AwaitFileAck);
    assert_eq!(step.after, After::AwaitMessage);
    assert_eq!(step.send, Some(bytes(&offer_file("a.bin", 4096))));

    let step = transfer.on_message(&bytes(&file_ack("ok")));
    assert_eq!(transfer.state, TransferState::Connecting(0));
    assert_eq!(step.send, None);
    assert_eq!(step.after, After::Connect(host(HostType::Direct, "10.0.0.1", 5000)));

    let step = transfer.on_transferred(Ok(()));
    assert_eq!(transfer.state, TransferState::Done);
    assert_eq!(step.after, After::Finished(Ok(())));
}

#[test]
fn hosts_are_tried_direct_first_and_then_every_relay() {
    let (mut transfer, _) = FileTransfer::begin_send("a.bin", 1, vec![], vec![]);
    transfer.on_message(&bytes(&PeerMessage::Transit(peer_transit())));
    let step = transfer.on_message(&bytes(&file_ack("ok")));
    assert_eq!(step.after, After::Connect(host(HostType::Direct, "10.0.0.1", 5000)));
    let step = transfer.on_connection_failed();
    assert_eq!(step.after, After::Connect(host(HostType::Direct, "10.0.0.2", 5001)));
    assert_eq!(transfer.state, TransferState::Connecting(1));
    let step = transfer.on_connection_failed();
    assert_eq!(step.after, After::Connect(host(HostType::Relay, "relay-a", 1)));
    let step = transfer.on_connection_failed();
    assert_eq!(step.after, After::Connect(host(HostType::Relay, "relay-b", 2)));
    assert_eq!(transfer.state, TransferState::Connecting(3));
    let step = transfer.on_connection_failed();
    assert_eq!(step.after, After::Connect(host(HostType::Relay, "relay-c", 3)));
    assert_eq!(transfer.state, TransferState::Connecting(4));
    let step = transfer.on_connection_failed();
    assert_eq!(step.after, After::Finished(Err(TransferError::NoRoute)));
}

#[test]
fn a_transfer_without_a_reachable_host_fails() {
    let (mut transfer, _) = FileTransfer::begin_send("a.bin", 1, vec![], vec![]);
    let one = TransitType {
        abilities_v1: vec![],
        hints_v1: vec![Hints::DirectTcpV1(direct_type("0.0", "h", 1))],
    };
    transfer.on_message(&bytes(&PeerMessage::Transit(one)));
    transfer.on_message(&bytes(&file_ack("ok")));
    let step = transfer.on_connection_failed();
    assert_eq!(step.after, After::Finished(Err(TransferError::NoRoute)));
    assert_eq!(transfer.state, TransferState::Done);
    assert_eq!(
        transfer.on_connection_failed().after,
        After::Finished(Err(TransferError::OutOfTurn))
    );

    let (mut empty, _) = FileTransfer::begin_send("a.bin", 1, vec![], vec![]);
    let none = TransitType { abilities_v1: vec![], hints_v1: vec![] };
    empty.on_message(&bytes(&PeerMessage::Transit(none)));
    let step = empty.on_message(&bytes(&file_ack("ok")));
    assert_eq!(step.after, After::Finished(Err(TransferError::NoRoute)));
}

#[test]
fn a_failed_transfer_reports_the_transit_error() {
    let (mut transfer, _) = FileTransfer::begin_send("a.bin", 1, vec![], vec![]);
    transfer.on_message(&bytes(&PeerMessage::Transit(peer_transit())));
    transfer.on_message(&bytes(&file_ack("ok")));
    let step = transfer.on_transferred(Err(TransitError::ChecksumMismatch));
    assert_eq!(
        step.after,
        After::Finished(Err(TransferError::Transit(TransitError::ChecksumMismatch)))
    );
    assert_eq!(
        transfer.on_transferred(Ok(())).after,
        After::Finished(Err(TransferError::OutOfTurn))
    );
}

#[test]
fn the_sender_objects_to_unexpected_messages() {
    let start = || FileTransfer::begin_send("a.bin", 1, vec![], vec![]).0;
    let mut transfer = start();
    assert_eq!(
        transfer.on_message(&bytes(&file_ack("ok"))).after,
        After::Finished(Err(TransferError::UnexpectedMessage))
    );
    assert_eq!(transfer.state, TransferState::Done);
    assert_eq!(
        transfer.on_message(&bytes(&file_ack("ok"))).after,
        After::Finished(Err(TransferError::OutOfTurn))
    );
    let mut transfer = start();
    assert_eq!(
        transfer.on_message(b"\xff\xfe").after,
        After::Finished(Err(TransferError::BadMessage))
    );
    let mut transfer = start();
    assert_eq!(
        transfer.on_message(b"{}").after,
        After::Finished(Err(TransferError::BadMessage))
    );
    let mut transfer = start();
    transfer.on_message(&bytes(&PeerMessage::Transit(peer_transit())));
    assert_eq!(
        transfer.on_message(&bytes(&file_ack("no"))).after,
        After::Finished(Err(TransferError::FileAckFailed))
    );
    let mut transfer = start();
    transfer.on_message(&bytes(&PeerMessage::Transit(peer_transit())));
    assert_eq!(
        transfer.on_message(&bytes(&message_ack("ok"))).after,
        After::Finished(Err(TransferError::NoFileAck))
    );
    let mut transfer = start();
    transfer.on_message(&bytes(&PeerMessage::Transit(peer_transit())));
    transfer.on_message(&bytes(&file_ack("ok")));
    assert_eq!(
        transfer.on_message(&bytes(&file_ack("ok"))).after,
        After::Finished(Err(TransferError::OutOfTurn))
    );
}

#[test]
fn receiving_a_file_stores_it_under_another_name() {
    let (mut transfer, step) = FileTransfer::begin_receive(&peer_transit(), vec![], vec![]);
    assert_eq!(transfer.role, Role::Receiver);
    assert_eq!(transfer.state, TransferState::AwaitOffer);
    assert_eq!(transfer.hosts.len(), 5);
    assert_eq!(step.after, After::AwaitMessage);
    assert!(matches!(read_peer_message(&step.send.unwrap()), Some(PeerMessage::Transit(_))));

    let step = transfer.on_message(&bytes(&offer_file("a.bin", 4096)));
    assert_eq!(transfer.filename, "a.bin.rcv");
    assert_eq!(transfer.filesize, 4096);
    assert_eq!(step.send, Some(bytes(&file_ack("ok"))));
    assert_eq!(step.after, After::Connect(host(HostType::Direct, "10.0.0.1", 5000)));
    assert_eq!(transfer.on_transferred(Ok(())).after, After::Finished(Ok(())));
}

#[test]
fn the_receiver_objects_to_unexpected_offers() {
    let start = || FileTransfer::begin_receive(&peer_transit(), vec![], vec![]).0;
    let mut transfer = start();
    assert_eq!(
        transfer.on_message(&bytes(&message("hi"))).after,
        After::Finished(Err(TransferError::UnexpectedOffer))
    );
    let mut transfer = start();
    assert_eq!(
        transfer.on_message(&bytes(&file_ack("ok"))).after,
        After::Finished(Err(TransferError::UnexpectedMessage))
    );
    let mut transfer = start();
    assert_eq!(
        transfer.on_message(b"junk").after,
        After::Finished(Err(TransferError::BadMessage))
    );
}

#[test]
fn send_file_and_receive_file_begin_with_the_transit_message() {
    let (transfer, step) = send_file("f", 3, 4000, &relay());
    assert_eq!(transfer.state, TransferState::AwaitTransit);
    assert_eq!(transfer.filename, "f");
    assert_eq!(transfer.filesize, 3);
    match read_peer_message(&step.send.unwrap()) {
        Some(PeerMessage::Transit(t)) => {
            assert_eq!(t.abilities_v1.len(), 2);
            assert_eq!(
                t.hints_v1.last(),
                Some(&Hints::RelayV1(relay_type(vec![direct_type("0.0", "relay.example", 4001)])))
            );
        }
        other => panic!("no transit message: {:?}", other),
    }
    let (transfer, step) = receive_file(&peer_transit(), 4000, &relay());
    assert_eq!(transfer.state, TransferState::AwaitOffer);
    assert_eq!(step.after, After::AwaitMessage);
    assert!(step.send.is_some());
}

#[test]
fn send_decides_by_the_kind_of_message() {
    assert_eq!(
        send(MessageType::Message("hello".to_string())),
        SendPlan::Text(br#"{"offer":{"message":"hello"}}"#.to_vec())
    );
    assert_eq!(
        send(MessageType::File { filename: "a.bin".to_string(), filesize: 4096 }),
        SendPlan::File { filename: "a.bin".to_string(), filesize: 4096 }
    );
}

#[test]
fn receive_decides_by_the_first_message() {
    assert_eq!(
        receive(&bytes(&message("hello"))),
        ReceivePlan::Reply {
            answer: br#"{"answer":{"message_ack":"ok"}}"#.to_vec(),
            text: "hello".to_string()
        }
    );
    assert_eq!(
        receive(&bytes(&offer_file("a.bin", 1))),
        ReceivePlan::Reply { answer: br#"{"answer":{"file_ack":"ok"}}"#.to_vec(), text: String::new() }
    );
    let directory = PeerMessage::Offer(OfferType::Directory {
        dirname: "d".to_string(),
        mode: "m".to_string(),
        zipsize: 1,
        numbytes: 1,
        numfiles: 1,
    });
    assert_eq!(receive(&bytes(&directory)), ReceivePlan::Fail(TransferError::UnsupportedOffer));
    assert_eq!(
        receive(&bytes(&file_ack("ok"))),
        ReceivePlan::Fail(TransferError::UnexpectedAnswer)
    );
    assert_eq!(receive(&bytes(&error_message("oops"))), ReceivePlan::Nothing);
    assert_eq!(
        receive(&bytes(&PeerMessage::Transit(peer_transit()))),
        ReceivePlan::ReceiveFile(peer_transit())
    );
    assert_eq!(receive(b"\xc0"), ReceivePlan::Fail(TransferError::BadMessage));
    assert_eq!(receive(b"[1]"), ReceivePlan::Fail(TransferError::BadMessage));
}
