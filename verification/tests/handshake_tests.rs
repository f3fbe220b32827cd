use magic_wormhole::handshake::{
    generate_transit_side, make_receive_handshake, make_relay_handshake, make_send_handshake,
    rx_handshake_exchange, tx_handshake_exchange, Handshake, HandshakeNext, HandshakeState,
    HostType, Role,
};
use magic_wormhole::transit::{make_record_keys, TransitError};
use sha2::Sha256;

fn hkdf_hex(key: &[u8], purpose: &[u8]) -> String {
    let mut out = [0u8; 32];
    hkdf::Hkdf::<Sha256>::new(None, key).expand(purpose, &mut out).unwrap();
    hex::encode(out)
}

fn exchange(next: HandshakeNext) -> (Vec<u8>, usize) {
    match next {
        HandshakeNext::Exchange { send, expect } => (send, expect),
        other => panic!("no exchange: {:?}", other),
    }
}

#[test]
fn handshake_lines_carry_the_derived_keys_in_hex() {
    let key = b"transit key of thirty-two bytes!";
    assert_eq!(
        make_send_handshake(key),
        format!("transit sender {} ready\n\n", hkdf_hex(key, b"transit_sender"))
    );
    assert_eq!(
        make_receive_handshake(key),
        format!("transit receiver {} ready\n\n", hkdf_hex(key, b"transit_receiver"))
    );
    assert_eq!(
        make_relay_handshake(key, "0011223344556677"),
        format!(
            "please relay {} for side 0011223344556677\n",
            hkdf_hex(key, b"transit_relay_token")
        )
    );
}

#[test]
fn handshake_lines_have_their_lengths() {
    let key = [5u8; 32];
    assert_eq!(make_send_handshake(&key).len(), 87);
    assert_eq!(make_receive_handshake(&key).len(), 89);
    assert_eq!(make_relay_handshake(&key, "0011223344556677").len(), 13 + 64 + 10 + 16 + 1);
}

#[test]
fn transit_side_is_eight_bytes_in_hex() {
    let a = generate_transit_side();
    let b = generate_transit_side();
    assert_eq!(a.len(), 16);
    assert!(a.chars().all(|c| c.is_ascii_hexdigit() && !c.is_ascii_uppercase()));
    assert_eq!(hex::decode(&a).unwrap().len(), 8);
    assert_ne!(a, b);
}

#[test]
fn sender_handshake_over_a_direct_connection() {
    let key = [1u8; 32];
    let (mut shake, first) = tx_handshake_exchange(HostType::Direct, &key);
    assert_eq!(shake.role, Role::Sender);
    assert_eq!(shake.state, HandshakeState::AwaitPeer);
    let (send, expect) = exchange(first);
    assert_eq!(send, make_send_handshake(&key).into_bytes());
    assert_eq!(expect, 89);
    let next = shake.received(make_receive_handshake(&key).as_bytes());
    let (skey, rkey) = make_record_keys(&key);
    assert_eq!(next, HandshakeNext::Finished { send: b"go\n".to_vec(), skey, rkey });
    assert_eq!(shake.state, HandshakeState::Done);
    assert_eq!(shake.received(b"more"), HandshakeNext::Failed(TransitError::OutOfTurn));
    assert_eq!(shake.state, HandshakeState::Failed);
}

#[test]
fn receiver_handshake_over_a_direct_connection() {
    let key = [1u8; 32];
    let (mut shake, first) = rx_handshake_exchange(HostType::Direct, &key);
    assert_eq!(shake.role, Role::Receiver);
    let (send, expect) = exchange(first);
    assert_eq!(send, make_receive_handshake(&key).into_bytes());
    assert_eq!(expect, 90);
    let mut inbound = make_send_handshake(&key).into_bytes();
    inbound.extend_from_slice(b"go\n");
    let next = shake.received(&inbound);
    let (skey, rkey) = make_record_keys(&key);
    assert_eq!(next, HandshakeNext::Finished { send: vec![], skey, rkey });
}

#[test]
fn handshake_through_a_relay_asks_the_relay_first() {
    let key = [2u8; 32];
    let (mut shake, first) = Handshake::begin(Role::Sender, HostType::Relay, &key, "aabbccddeeff0011");
    assert_eq!(shake.state, HandshakeState::AwaitRelay);
    let (send, expect) = exchange(first);
    assert_eq!(send, make_relay_handshake(&key, "aabbccddeeff0011").into_bytes());
    assert_eq!(expect, 3);
    let (send, expect) = exchange(shake.received(b"ok\n"));
    assert_eq!(shake.state, HandshakeState::AwaitPeer);
    assert_eq!(send, make_send_handshake(&key).into_bytes());
    assert_eq!(expect, 89);
    assert!(matches!(
        shake.received(make_receive_handshake(&key).as_bytes()),
        HandshakeNext::Finished { .. }
    ));
}

#[test]
fn relay_request_names_a_fresh_side() {
    let key = [2u8; 32];
    let (_, first) = rx_handshake_exchange(HostType::Relay, &key);
    let (send, expect) = exchange(first);
    assert_eq!(expect, 3);
    let line = String::from_utf8(send).unwrap();
    let head = format!("please relay {} for side ", hkdf_hex(&key, b"transit_relay_token"));
    assert!(line.starts_with(&head));
    assert!(line.ends_with('\n'));
    assert_eq!(line.len(), head.len() + 17);
}

#[test]
fn a_relay_that_does_not_say_ok_fails_the_handshake() {
    let key = [2u8; 32];
    let (mut shake, _) = Handshake::begin(Role::Receiver, HostType::Relay, &key, "00");
    assert_eq!(shake.received(b"no\n"), HandshakeNext::Failed(TransitError::RelayRefused));
    assert_eq!(shake.state, HandshakeState::Failed);
    assert_eq!(shake.received(b"ok\n"), HandshakeNext::Failed(TransitError::OutOfTurn));
}

#[test]
fn a_peer_with_another_key_fails_the_handshake() {
    let (mut sender, _) = tx_handshake_exchange(HostType::Direct, &[1u8; 32]);
    assert_eq!(
        sender.received(make_receive_handshake(&[9u8; 32]).as_bytes()),
        HandshakeNext::Failed(TransitError::HandshakeMismatch)
    );
    let (mut receiver, _) = rx_handshake_exchange(HostType::Direct, &[1u8; 32]);
    let mut no_go = make_send_handshake(&[1u8; 32]).into_bytes();
    no_go.extend_from_slice(b"no\n");
    assert_eq!(receiver.received(&no_go), HandshakeNext::Failed(TransitError::HandshakeMismatch));
    let (mut short, _) = rx_handshake_exchange(HostType::Direct, &[1u8; 32]);
    assert_eq!(
        short.received(make_send_handshake(&[1u8; 32]).as_bytes()),
        HandshakeNext::Failed(TransitError::HandshakeMismatch)
    );
}

#[test]
fn both_sides_of_a_handshake_agree_on_the_record_keys() {
    let key = [3u8; 32];
    let (mut sender, s1) = tx_handshake_exchange(HostType::Direct, &key);
    let (mut receiver, r1) = rx_handshake_exchange(HostType::Direct, &key);
    let (to_receiver, _) = exchange(s1);
    let (to_sender, _) = exchange(r1);
    let sender_done = sender.received(&to_sender);
    let mut inbound = to_receiver;
    let keys = match sender_done {
        HandshakeNext::Finished { send, skey, rkey } => {
            inbound.extend_from_slice(&send);
            (skey, rkey)
        }
        other => panic!("sender failed: {:?}", other),
    };
    match receiver.received(&inbound) {
        HandshakeNext::Finished { send, skey, rkey } => {
            assert!(send.is_empty());
            assert_eq!((skey, rkey), keys);
        }
        other => panic!("receiver failed: {:?}", other),
    }
}
