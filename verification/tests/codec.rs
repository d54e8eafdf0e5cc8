use secure_channel::codec::{MasterChannel, TransactionKind, MAX_TRANSACTION_SIZE};

#[test]
fn test_making_master_channel_list() {
    for trng_key in 0..=255u8 {
        let host_channel: Vec<u8> = MasterChannel::into_slave(TransactionKind::List, trng_key)
            .into_iter()
            .take(16)
            .collect();

        assert_eq!(
            host_channel,
            &[
                trng_key,
                b'L' ^ trng_key,
                trng_key,
                trng_key,
                0,
                0,
                0,
                0,
                0,
                0,
                0,
                0,
                0,
                0,
                0,
                0
            ]
        );
    }
}

#[test]
fn test_making_master_channel_boot() {
    for trng_key in 0..=255u8 {
        let host_channel: Vec<u8> = MasterChannel::into_slave(TransactionKind::Boot, trng_key)
            .into_iter()
            .take(16)
            .collect();

        assert_eq!(
            host_channel,
            &[
                trng_key,
                b'B' ^ trng_key,
                trng_key,
                trng_key,
                0,
                0,
                0,
                0,
                0,
                0,
                0,
                0,
                0,
                0,
                0,
                0
            ]
        );
    }
}

#[test]
fn test_making_master_channel_attest() {
    for trng_key in 0..=255u8 {
        let host_channel: Vec<u8> =
            MasterChannel::into_slave(TransactionKind::Attest, trng_key)
                .into_iter()
                .take(16)
                .collect();

        assert_eq!(
            host_channel,
            &[
                trng_key,
                b'A' ^ trng_key,
                trng_key,
                trng_key,
                0,
                0,
                0,
                0,
                0,
                0,
                0,
                0,
                0,
                0,
                0,
                0
            ]
        );
    }
}

#[test]
fn test_making_master_channel_raw() {
    for trng_key in 0..=255u8 {
        let host_channel: Vec<u8> = MasterChannel::into_slave(
            TransactionKind::Raw(vec![trng_key; MAX_TRANSACTION_SIZE]),
            trng_key,
        )
        // one extra byte to test trng_key ^ trng_key for the raw bytes
        .into_iter()
        .take(17)
        .collect();

        assert_eq!(
            host_channel,
            &[
                trng_key,
                b'R' ^ trng_key,
                trng_key,
                trng_key,
                0,
                0,
                0,
                0,
                0,
                0,
                0,
                0,
                0,
                0,
                0,
                0,
                0
            ]
        );
    }
}

#[test]
fn framing_round_trip_every_key() {
    for r in 0..=255u8 {
        let decoded = MasterChannel::from_master(
            MasterChannel::into_slave(TransactionKind::List, r).as_slice(),
        )
        .expect("round trip must decode");
        assert_eq!(decoded.trng_key, r);
        assert!(matches!(decoded.kind, TransactionKind::List));

        let decoded = MasterChannel::from_master(
            MasterChannel::into_slave(TransactionKind::Boot, r).as_slice(),
        )
        .expect("round trip must decode");
        assert_eq!(decoded.trng_key, r);
        assert!(matches!(decoded.kind, TransactionKind::Boot));

        let decoded = MasterChannel::from_master(
            MasterChannel::into_slave(TransactionKind::Attest, r).as_slice(),
        )
        .expect("round trip must decode");
        assert_eq!(decoded.trng_key, r);
        assert!(matches!(decoded.kind, TransactionKind::Attest));
    }
}

#[test]
fn framing_round_trip_raw_payload() {
    let payload: Vec<u8> = (0..MAX_TRANSACTION_SIZE as u32).map(|i| (3 * i + 7) as u8).collect();
    for r in [0u8, 1, 0x55, 0xAA, 0xFF] {
        let env = MasterChannel::into_slave(TransactionKind::Raw(payload.clone()), r);
        let decoded = MasterChannel::from_master(env.as_slice()).expect("must decode");
        assert_eq!(decoded.trng_key, r);
        match decoded.kind {
            TransactionKind::Raw(p) => assert_eq!(p, payload),
            _ => panic!("wrong kind"),
        }
    }
}

#[test]
fn masking_twice_reproduces_payload() {
    let payload: Vec<u8> = (0..=255u32).map(|i| i as u8).collect();
    for key in [0u8, 1, 0x42, 0xFF] {
        let once = secure_channel::codec::mask_bytes(payload.as_slice(), key);
        let twice = secure_channel::codec::mask_bytes(once.as_slice(), key);
        assert_eq!(twice, payload);
        if key != 0 {
            assert_ne!(once, payload);
        }
    }
}

#[test]
fn unknown_discriminator_is_rejected() {
    for r in [0u8, 9, 0x4C, 0xF0] {
        // Byte 1 XOR byte 0 spells 'Z', which no transaction kind uses.
        let mut env = vec![0u8; 80];
        env[0] = r;
        env[1] = r ^ b'Z';
        env[2] = r;
        env[3] = r;
        assert!(MasterChannel::from_master(env.as_slice()).is_none());
    }
    // Too short to carry even the key and discriminator.
    assert!(MasterChannel::from_master(&[7u8]).is_none());
    assert!(MasterChannel::from_master(&[]).is_none());
}

#[test]
fn envelope_splits_into_cipher_blocks() {
    let env = MasterChannel::into_slave(TransactionKind::Boot, 0x5A);
    assert_eq!(env.len(), 80);
    let blocks = secure_channel::codec::chunk_blocks(env.as_slice());
    assert_eq!(blocks.len(), 5);
    let mut joined: Vec<u8> = Vec::new();
    for b in &blocks {
        assert_eq!(b.len(), 16);
        joined.extend_from_slice(b.as_slice());
    }
    assert_eq!(joined, env);
}
