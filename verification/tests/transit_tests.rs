use magic_wormhole::crypto::{DIGEST_BYTES, KEY_BYTES, MAC_BYTES, NONCE_BYTES};
use magic_wormhole::engine::key::derive_key;
use magic_wormhole::transit::{
    check_transit_ack, decrypt_record, derive_key_from_purpose, encrypt_record, frame_record,
    make_record_keys, make_transit_ack_msg, make_wire_nonce, receive_record, receive_records,
    record_length, same_bytes, send_records, RecordReceiver, RecordSender, TransitError,
    RECORD_CHUNK,
};
use sha2::{Digest, Sha256};

fn key_of(byte: u8) -> Vec<u8> {
    vec![byte; KEY_BYTES]
}

fn pattern(len: usize) -> Vec<u8> {
    (0..len).map(|i| (i * 7 + 3) as u8).collect()
}

fn hkdf(key: &[u8], purpose: &[u8], len: usize) -> Vec<u8> {
    let mut out = vec![0u8; len];
    hkdf::Hkdf::<Sha256>::new(None, key).expand(purpose, &mut out).unwrap();
    out
}

#[test]
fn constants_have_the_sizes_of_the_primitives() {
    assert_eq!(KEY_BYTES, sodiumoxide::crypto::secretbox::KEYBYTES);
    assert_eq!(NONCE_BYTES, sodiumoxide::crypto::secretbox::NONCEBYTES);
    assert_eq!(MAC_BYTES, sodiumoxide::crypto::secretbox::MACBYTES);
    assert_eq!(DIGEST_BYTES, 32);
    assert_eq!(RECORD_CHUNK, 4096);
}

#[test]
fn derive_key_is_hkdf_sha256_without_salt() {
    let key = b"0123456789abcdef0123456789abcdef";
    let derived = derive_key(key, b"some purpose", 40);
    assert_eq!(derived, hkdf(key, b"some purpose", 40));
    assert_ne!(&derived[..32], &key[..]);
    assert_eq!(derive_key(key, b"some purpose", 0), Vec::<u8>::new());
}

#[test]
fn derive_key_known_answer() {
    // The third test vector of RFC 5869: no salt, no info.
    let ikm = vec![0x0bu8; 22];
    let derived = derive_key(&ikm, b"", 42);
    assert_eq!(
        hex::encode(derived),
        "8da4e775a563c18f715f802a063c5a31b8a11f5c5ee1879ec3454e5f3c738d2d9d201395faa4b61a96c8"
    );
}

#[test]
fn record_keys_use_their_purposes() {
    let key = key_of(9);
    let (skey, rkey) = make_record_keys(&key);
    assert_eq!(skey, hkdf(&key, b"transit_record_sender_key", 32));
    assert_eq!(rkey, hkdf(&key, b"transit_record_receiver_key", 32));
    assert_ne!(skey, rkey);
    assert_eq!(derive_key_from_purpose(&key, "transit_sender"), hkdf(&key, b"transit_sender", 32));
}

#[test]
fn wire_nonce_is_the_counter_with_its_low_byte_last() {
    assert_eq!(make_wire_nonce(0), vec![0u8; 24]);
    let one = make_wire_nonce(1);
    assert_eq!(one[23], 1);
    assert!(one[..23].iter().all(|b| *b == 0));
    let big = make_wire_nonce(0x0102_0304_0506_0708);
    assert_eq!(&big[16..], &[1, 2, 3, 4, 5, 6, 7, 8]);
    assert!(big[..16].iter().all(|b| *b == 0));
    assert_eq!(make_wire_nonce(256)[22], 1);
    assert_eq!(make_wire_nonce(256)[23], 0);
}

#[test]
fn wire_nonce_is_the_reversal_of_the_incremented_counter() {
    let mut counter = sodiumoxide::crypto::secretbox::Nonce::from_slice(&[0u8; 24]).unwrap();
    for n in 0..600u64 {
        let mut reversed = counter.0.to_vec();
        reversed.reverse();
        assert_eq!(make_wire_nonce(n), reversed);
        counter.increment_le_inplace();
    }
}

#[test]
fn encrypted_record_decrypts_to_the_plaintext() {
    let key = key_of(1);
    for len in [0usize, 1, 15, 4096] {
        let plaintext = pattern(len);
        let packet = encrypt_record(&plaintext, 5, &key).unwrap();
        assert_eq!(packet.len(), NONCE_BYTES + len + MAC_BYTES);
        assert_eq!(&packet[..NONCE_BYTES], &make_wire_nonce(5)[..]);
        assert_eq!(decrypt_record(&packet, &key), Ok(plaintext));
    }
}

#[test]
fn encrypted_record_is_the_secretbox_under_the_wire_nonce() {
    let key = key_of(3);
    let plaintext = b"attack at dawn".to_vec();
    let packet = encrypt_record(&plaintext, 2, &key).unwrap();
    let nonce = sodiumoxide::crypto::secretbox::Nonce::from_slice(&make_wire_nonce(2)).unwrap();
    let sodium_key = sodiumoxide::crypto::secretbox::Key::from_slice(&key).unwrap();
    let boxed = sodiumoxide::crypto::secretbox::seal(&plaintext, &nonce, &sodium_key);
    assert_eq!(&packet[NONCE_BYTES..], &boxed[..]);
    assert_ne!(&packet[NONCE_BYTES..NONCE_BYTES + plaintext.len()], &plaintext[..]);
}

#[test]
fn nonce_increments_show_on_the_wire() {
    let key = key_of(1);
    let a = encrypt_record(b"same", 0, &key).unwrap();
    let b = encrypt_record(b"same", 1, &key).unwrap();
    assert_ne!(a, b);
    assert_ne!(&a[..NONCE_BYTES], &b[..NONCE_BYTES]);
}

#[test]
fn encrypt_record_refuses_a_key_of_wrong_length() {
    assert_eq!(encrypt_record(b"x", 0, &[1u8; 31]), Err(TransitError::BadKey));
    assert_eq!(encrypt_record(b"x", 0, &[]), Err(TransitError::BadKey));
}

#[test]
fn decrypt_record_errors() {
    let key = key_of(1);
    let packet = encrypt_record(b"hello", 0, &key).unwrap();
    assert_eq!(decrypt_record(&packet[..10], &key), Err(TransitError::ShortPacket));
    assert_eq!(decrypt_record(&packet, &[0u8; 5]), Err(TransitError::BadKey));
    assert_eq!(decrypt_record(&packet, &key_of(2)), Err(TransitError::DecryptionFailed));
    assert_eq!(
        decrypt_record(&packet[..NONCE_BYTES + 3], &key),
        Err(TransitError::DecryptionFailed)
    );
    for i in 0..packet.len() {
        let mut tampered = packet.clone();
        tampered[i] ^= 1;
        assert_eq!(decrypt_record(&tampered, &key), Err(TransitError::DecryptionFailed));
    }
}

#[test]
fn frame_record_prefixes_the_big_endian_length() {
    assert_eq!(frame_record(&[]), Ok(vec![0, 0, 0, 0]));
    assert_eq!(frame_record(&[7, 8]), Ok(vec![0, 0, 0, 2, 7, 8]));
    let long = vec![1u8; 0x0102_03];
    let framed = frame_record(&long).unwrap();
    assert_eq!(&framed[..4], &[0, 1, 2, 3]);
    assert_eq!(&framed[4..], &long[..]);
}

#[test]
fn record_length_reads_the_big_endian_length() {
    assert_eq!(record_length(&[0, 0, 0, 0]), 0);
    assert_eq!(record_length(&[0, 0, 1, 2]), 258);
    assert_eq!(record_length(&[0xff, 0xff, 0xff, 0xff]), u32::MAX);
    assert_eq!(record_length(&[1, 0, 0, 0]), 1 << 24);
}

#[test]
fn receive_record_takes_the_first_record() {
    assert_eq!(receive_record(&[]), None);
    assert_eq!(receive_record(&[0, 0, 0]), None);
    assert_eq!(receive_record(&[0, 0, 0, 2, 9]), None);
    assert_eq!(receive_record(&[0, 0, 0, 0]), Some((vec![], 4)));
    assert_eq!(receive_record(&[0, 0, 0, 2, 9, 8, 7, 6]), Some((vec![9, 8], 6)));
    let framed = frame_record(&pattern(300)).unwrap();
    assert_eq!(receive_record(&framed), Some((pattern(300), 304)));
}

#[test]
fn send_records_chunks_the_file() {
    let key = key_of(4);
    for len in [0usize, 1, 4095, 4096, 4097, 8192, 10000] {
        let data = pattern(len);
        let (wire, checksum) = send_records(&data, &key).unwrap();
        let records = len / 4096 + 1;
        assert_eq!(wire.len(), len + records * (4 + NONCE_BYTES + MAC_BYTES));
        assert_eq!(checksum, Sha256::digest(&data).to_vec());
        let (first, used) = receive_record(&wire).unwrap();
        assert_eq!(&first[..NONCE_BYTES], &make_wire_nonce(0)[..]);
        assert_eq!(decrypt_record(&first, &key).unwrap(), data[..len.min(4096)].to_vec());
        if records > 1 {
            let (second, _) = receive_record(&wire[used..]).unwrap();
            assert_eq!(&second[..NONCE_BYTES], &make_wire_nonce(1)[..]);
        }
    }
}

#[test]
fn received_file_has_the_digest_of_the_sent_file() {
    let key = key_of(4);
    for len in [0usize, 1, 4095, 4096, 4097, 8192, 10000] {
        let data = pattern(len);
        let (wire, sent_checksum) = send_records(&data, &key).unwrap();
        let (received, received_checksum) = receive_records(&wire, len as u64, &key).unwrap();
        assert_eq!(received, data);
        assert_eq!(received_checksum, sent_checksum);
    }
}

#[test]
fn send_records_refuses_a_key_of_wrong_length() {
    assert_eq!(send_records(b"abc", &[0u8; 16]), Err(TransitError::BadKey));
}

#[test]
fn receive_records_errors() {
    let key = key_of(4);
    let data = pattern(5000);
    let (wire, _) = send_records(&data, &key).unwrap();
    assert_eq!(receive_records(&wire, 5001, &key), Err(TransitError::Incomplete));
    assert_eq!(receive_records(&wire[..wire.len() - 1], 5000, &key), Err(TransitError::Incomplete));
    assert_eq!(receive_records(&wire, 4999, &key), Err(TransitError::TooMuchData));
    assert_eq!(receive_records(&wire, 5000, &key_of(5)), Err(TransitError::DecryptionFailed));
    assert_eq!(receive_records(&wire, 5000, &[1, 2, 3]), Err(TransitError::BadKey));
    assert_eq!(
        receive_records(&frame_record(&[1, 2, 3]).unwrap(), 1, &key),
        Err(TransitError::ShortPacket)
    );
    assert_eq!(receive_records(&wire, 0, &key), Ok((vec![], Sha256::digest(b"").to_vec())));
    assert_eq!(receive_records(&wire, 4096, &key).unwrap().0, data[..4096].to_vec());
}

#[test]
fn a_flipped_bit_in_a_record_is_noticed() {
    let key = key_of(4);
    let data = pattern(5000);
    let (mut wire, _) = send_records(&data, &key).unwrap();
    wire[40] ^= 0x10;
    assert_eq!(receive_records(&wire, 5000, &key), Err(TransitError::DecryptionFailed));
}

#[test]
fn streaming_sender_matches_send_records() {
    let key = key_of(6);
    let data = pattern(9000);
    let (wire, checksum) = send_records(&data, &key).unwrap();
    let mut sender = RecordSender::new(&key).unwrap();
    let mut streamed = Vec::new();
    streamed.extend(sender.seal_chunk(&data[..4096]).unwrap());
    streamed.extend(sender.seal_chunk(&data[4096..8192]).unwrap());
    streamed.extend(sender.seal_chunk(&data[8192..]).unwrap());
    assert_eq!(streamed, wire);
    assert_eq!(sender.finish(), checksum);
    assert!(matches!(RecordSender::new(&[0u8; 3]), Err(TransitError::BadKey)));
}

#[test]
fn a_short_chunk_completes_the_file() {
    let key = key_of(6);
    let data = pattern(8192);
    let (wire, _) = send_records(&data, &key).unwrap();
    let mut sender = RecordSender::new(&key).unwrap();
    let mut streamed = Vec::new();
    assert!(!sender.is_complete());
    streamed.extend(sender.seal_chunk(&data[..4096]).unwrap());
    assert!(!sender.is_complete());
    streamed.extend(sender.seal_chunk(&data[4096..]).unwrap());
    assert!(!sender.is_complete());
    streamed.extend(sender.seal_chunk(&[]).unwrap());
    assert!(sender.is_complete());
    assert_eq!(streamed, wire);
    assert_eq!(sender.seal_chunk(&data[..10]), Err(TransitError::AlreadyComplete));
    assert!(sender.is_complete());
}

#[test]
fn streaming_receiver_counts_down_and_hashes() {
    let key = key_of(6);
    let data = pattern(5000);
    let mut receiver = RecordReceiver::new(5000, &key).unwrap();
    assert_eq!(receiver.remaining(), 5000);
    let first = encrypt_record(&data[..4096], 0, &key).unwrap();
    let second = encrypt_record(&data[4096..], 1, &key).unwrap();
    assert_eq!(receiver.open_record(&first[..5]), Err(TransitError::ShortPacket));
    assert_eq!(receiver.remaining(), 5000);
    assert_eq!(receiver.open_record(&first).unwrap(), data[..4096].to_vec());
    assert_eq!(receiver.remaining(), 904);
    assert_eq!(receiver.open_record(&first), Err(TransitError::TooMuchData));
    assert_eq!(receiver.remaining(), 904);
    assert_eq!(receiver.open_record(&second).unwrap(), data[4096..].to_vec());
    assert_eq!(receiver.remaining(), 0);
    assert_eq!(receiver.open_record(&second), Err(TransitError::AlreadyComplete));
    assert_eq!(receiver.finish(), Sha256::digest(&data).to_vec());
    assert!(matches!(RecordReceiver::new(1, &[]), Err(TransitError::BadKey)));
}

#[test]
fn transit_ack_is_sealed_with_nonce_zero() {
    let key = key_of(7);
    let packet = make_transit_ack_msg("abcd", &key).unwrap();
    assert_eq!(&packet[..NONCE_BYTES], &[0u8; 24]);
    let plaintext = decrypt_record(&packet, &key).unwrap();
    assert_eq!(String::from_utf8(plaintext).unwrap(), r#"{"ack":"ok","sha256":"abcd"}"#);
    assert_eq!(make_transit_ack_msg("abcd", &[1]), Err(TransitError::BadKey));
}

#[test]
fn sender_accepts_the_ack_with_its_digest() {
    let key = key_of(7);
    let checksum = Sha256::digest(b"the file").to_vec();
    let ack = make_transit_ack_msg(&hex::encode(&checksum), &key).unwrap();
    assert_eq!(check_transit_ack(&ack, &key, &checksum), Ok(()));
}

#[test]
fn sender_reports_a_checksum_mismatch() {
    let key = key_of(7);
    let sent = Sha256::digest(b"the file").to_vec();
    let received = Sha256::digest(b"the fil\x65\x01").to_vec();
    let ack = make_transit_ack_msg(&hex::encode(&received), &key).unwrap();
    assert_eq!(check_transit_ack(&ack, &key, &sent), Err(TransitError::ChecksumMismatch));
    let upper = make_transit_ack_msg(&hex::encode_upper(&sent), &key).unwrap();
    assert_eq!(check_transit_ack(&upper, &key, &sent), Err(TransitError::ChecksumMismatch));
}

#[test]
fn checksum_mismatch_after_a_corrupted_transfer() {
    // The receiver hashes what it got; where that differs from what was
    // sent, its ack carries another digest and the sender objects.
    let (skey, rkey) = make_record_keys(&key_of(8));
    let data = pattern(6000);
    let (_, sent_checksum) = send_records(&data, &skey).unwrap();
    let mut corrupted = data.clone();
    corrupted[17] ^= 1;
    let (wire, _) = send_records(&corrupted, &skey).unwrap();
    let (_, received_checksum) = receive_records(&wire, 6000, &skey).unwrap();
    assert_ne!(received_checksum, sent_checksum);
    let ack = make_transit_ack_msg(&hex::encode(&received_checksum), &rkey).unwrap();
    assert_eq!(
        check_transit_ack(&ack, &rkey, &sent_checksum),
        Err(TransitError::ChecksumMismatch)
    );
}

#[test]
fn sender_rejects_an_unreadable_ack() {
    let key = key_of(7);
    let not_json = encrypt_record(b"not json", 0, &key).unwrap();
    assert_eq!(check_transit_ack(&not_json, &key, b"x"), Err(TransitError::BadAck));
    let not_text = encrypt_record(&[0xff, 0xfe], 0, &key).unwrap();
    assert_eq!(check_transit_ack(&not_text, &key, b"x"), Err(TransitError::BadAck));
    let no_digest = encrypt_record(br#"{"ack":"ok"}"#, 0, &key).unwrap();
    assert_eq!(check_transit_ack(&no_digest, &key, b"x"), Err(TransitError::BadAck));
    assert_eq!(check_transit_ack(&not_json, &key_of(1), b"x"), Err(TransitError::DecryptionFailed));
    assert_eq!(check_transit_ack(&[1, 2], &key, b"x"), Err(TransitError::ShortPacket));
    assert_eq!(check_transit_ack(&not_json, &[1], b"x"), Err(TransitError::BadKey));
}

#[test]
fn same_bytes_compares_contents() {
    assert!(same_bytes(b"", b""));
    assert!(same_bytes(b"ok\n", b"ok\n"));
    assert!(!same_bytes(b"ok\n", b"ok"));
    assert!(!same_bytes(b"ok\n", b"oK\n"));
}
