use secure_core::anti_dos::recover_after_loss;
use secure_core::evolution::{
    apply_peer_kem, commit_evolution, derive_pending_key, generate_bob_keypair, get_kem_cipher, install_keypair,
    keep_kem_cipher, kem_cipher_len, make_pending, set_peer_public_key, start_evolution, EvolutionState,
};
use secure_core::init_module::{
    compute_id_stamp, entropy_reject, generate_id_stamp_from_curr, initialise_root_state, install_root,
    odd_even_interleave, store_bob_public_key, Pairing,
};
use secure_core::message_cipher::{
    build_aad, build_nonce, current_msg_seq, decrypt, derive_message_key, derive_message_key_from_root, encrypt,
    join_wire, key_info, next_msg_seq, pending_applies, reset_msg_counter, settle_message, split_wire,
    try_decrypt_with_evolution, zeroize_key, MsgCounter,
};
use secure_core::root_state::{
    enter_next_epoch, read_epoch_id, read_root_state_curr, read_root_state_pend, roll_epoch_forward, set_epoch_id,
    set_root_state_curr, set_root_state_pend, RootState,
};

// ---------------------------------------------------------------------------
// Recovery
// ---------------------------------------------------------------------------

#[test]
fn recover_forward() {
    let mut state = RootState::new();
    let mut counter = MsgCounter::new();
    let key = [1u8; 32];
    set_root_state_curr(&mut state, key);
    set_epoch_id(&mut state, 0);

    let new_e: u32 = recover_after_loss(&mut state, &mut counter, 5);
    assert_eq!(new_e, 5);
    assert_eq!(read_epoch_id(&state), 5);
    assert_ne!(read_root_state_curr(&state), key);
}

#[test]
fn noop_if_same() {
    let mut state = RootState::new();
    let mut counter = MsgCounter::new();
    set_root_state_curr(&mut state, [2u8; 32]);
    set_epoch_id(&mut state, 10);
    assert_eq!(recover_after_loss(&mut state, &mut counter, 5), 10);
}

#[test]
fn cap_enforced() {
    let mut state = RootState::new();
    let mut counter = MsgCounter::new();
    set_root_state_curr(&mut state, [3u8; 32]);
    set_epoch_id(&mut state, 0);
    assert_eq!(recover_after_loss(&mut state, &mut counter, 200_000), u32::MAX);
}

#[test]
fn recovery_gives_the_known_root_key() {
    let mut state = RootState::new();
    let mut counter = MsgCounter::new();
    set_root_state_curr(&mut state, [1u8; 32]);
    next_msg_seq(&mut counter);
    next_msg_seq(&mut counter);
    assert_eq!(recover_after_loss(&mut state, &mut counter, 5), 5);
    assert_eq!(
        read_root_state_curr(&state),
        [
            0xc8, 0x58, 0x0b, 0xe6, 0xe4, 0x52, 0x6e, 0x6f, 0xf9, 0x10, 0xf7, 0xd5, 0x5f, 0xb4, 0x2d, 0xb8, 0x6d, 0x3e,
            0x06, 0x05, 0xb5, 0x85, 0xb1, 0x4a, 0x87, 0xd0, 0xd6, 0x69, 0xa1, 0x54, 0xfa, 0xa2
        ]
    );
    assert_eq!(current_msg_seq(&counter), 1);
}

#[test]
fn recovery_in_two_steps_is_recovery_in_one() {
    let mut a = RootState::new();
    let mut b = RootState::new();
    let mut counter = MsgCounter::new();
    set_root_state_curr(&mut a, [7u8; 32]);
    set_root_state_curr(&mut b, [7u8; 32]);
    recover_after_loss(&mut a, &mut counter, 3);
    recover_after_loss(&mut a, &mut counter, 8);
    recover_after_loss(&mut b, &mut counter, 8);
    assert_eq!(read_root_state_curr(&a), read_root_state_curr(&b));
    assert_eq!(read_epoch_id(&a), read_epoch_id(&b));
}

#[test]
fn recovery_stops_at_the_largest_gap() {
    let mut state = RootState::new();
    let mut counter = MsgCounter::new();
    set_root_state_curr(&mut state, [3u8; 32]);
    set_root_state_pend(&mut state, Some([4u8; 32]));
    assert_eq!(recover_after_loss(&mut state, &mut counter, 100_001), u32::MAX);
    assert_eq!(read_root_state_curr(&state), [3u8; 32]);
    assert_eq!(read_epoch_id(&state), 0);
    set_epoch_id(&mut state, u32::MAX - 2);
    assert_eq!(recover_after_loss(&mut state, &mut counter, u32::MAX), u32::MAX);
    assert_eq!(read_epoch_id(&state), u32::MAX);
    assert_eq!(read_root_state_pend(&state), Some([4u8; 32]));
}

#[test]
fn largest_gap_is_recovered() {
    let mut state = RootState::new();
    let mut counter = MsgCounter::new();
    assert_eq!(recover_after_loss(&mut state, &mut counter, 100_000), 100_000);
    assert_eq!(read_epoch_id(&state), 100_000);
}

// ---------------------------------------------------------------------------
// Root state
// ---------------------------------------------------------------------------

#[test]
fn new_root_state_is_zero() {
    let state = RootState::new();
    assert_eq!(read_root_state_curr(&state), [0u8; 32]);
    assert_eq!(read_root_state_pend(&state), None);
    assert_eq!(read_epoch_id(&state), 0);
}

#[test]
fn commit_promotes_once() {
    let mut state = RootState::new();
    let mut counter = MsgCounter::new();
    set_root_state_curr(&mut state, [1u8; 32]);
    set_root_state_pend(&mut state, Some([2u8; 32]));
    set_epoch_id(&mut state, 6);
    next_msg_seq(&mut counter);
    assert_eq!(commit_evolution(&mut state, &mut counter), 0);
    assert_eq!(read_root_state_curr(&state), [2u8; 32]);
    assert_eq!(read_root_state_pend(&state), None);
    assert_eq!(read_epoch_id(&state), 7);
    assert_eq!(current_msg_seq(&counter), 1);

    next_msg_seq(&mut counter);
    assert_eq!(secure_core::root_state::commit_evolution(&mut state, &mut counter), 1);
    assert_eq!(read_root_state_curr(&state), [2u8; 32]);
    assert_eq!(read_epoch_id(&state), 7);
    assert_eq!(current_msg_seq(&counter), 2);
}

#[test]
fn roll_gives_the_known_root_key() {
    let mut state = RootState::new();
    let mut counter = MsgCounter::new();
    set_root_state_curr(&mut state, [1u8; 32]);
    set_epoch_id(&mut state, 41);
    assert_eq!(roll_epoch_forward(&mut state, &mut counter, b"epoch_roll", b"LinkChat Epoch Roll"), 42);
    assert_eq!(
        read_root_state_curr(&state),
        [
            0xf1, 0xff, 0xad, 0x92, 0xcc, 0xf4, 0xd6, 0x2d, 0xda, 0x58, 0x64, 0x9c, 0x9e, 0x0e, 0xa5, 0xcb, 0x84, 0x9e,
            0x3c, 0x19, 0x0a, 0xf9, 0xe6, 0x35, 0xf4, 0x25, 0x0c, 0xac, 0xbf, 0xf4, 0x96, 0x0f
        ]
    );
}

#[test]
fn entering_an_epoch_takes_the_given_root_key() {
    let mut state = RootState::new();
    let mut counter = MsgCounter::new();
    next_msg_seq(&mut counter);
    assert_eq!(enter_next_epoch(&mut state, &mut counter, [9u8; 32]), 1);
    assert_eq!(read_root_state_curr(&state), [9u8; 32]);
    assert_eq!(current_msg_seq(&counter), 1);
}

// ---------------------------------------------------------------------------
// Initialisation
// ---------------------------------------------------------------------------

fn counting(from: u8, n: usize) -> Vec<u8> {
    let mut v: Vec<u8> = Vec::new();
    for i in 0..n {
        v.push(from.wrapping_add(i as u8));
    }
    v
}

#[test]
fn interleave_takes_turns_up_to_the_shorter() {
    assert_eq!(odd_even_interleave(&[1, 2, 3], &[9, 8]), vec![1, 9, 2, 8]);
    assert_eq!(odd_even_interleave(&[], &[9, 8]), Vec::<u8>::new());
}

#[test]
fn interleave_keeps_both() {
    let alice = counting(0, 70);
    let bob = counting(100, 64);
    let out = odd_even_interleave(&alice, &bob);
    assert_eq!(out.len(), 128);
    for i in 0..64usize {
        assert_eq!(out[2 * i], alice[i]);
        assert_eq!(out[2 * i + 1], bob[i]);
    }
}

#[test]
fn peer_with_the_same_root_key_reads_the_message() {
    let mut mine = RootState::new();
    let mut peer = RootState::new();
    let mut counter = MsgCounter::new();
    set_root_state_curr(&mut mine, [21u8; 32]);
    set_root_state_curr(&mut peer, [21u8; 32]);
    let key = derive_message_key(&mine, 0, 9);
    let wire = encrypt(b"hello", &key, &[1u8; 32], true, 0, 9, 77).unwrap();
    let opened = try_decrypt_with_evolution(&mut peer, &mut counter, &wire, &[1u8; 32], true, 0, 9, 77);
    assert_eq!(opened, Some((b"hello".to_vec(), false)));
    assert_eq!(read_root_state_curr(&peer), [21u8; 32]);
}

#[test]
fn weak_entropy_is_rejected() {
    assert!(entropy_reject(&counting(0, 63)));
    assert!(!entropy_reject(&counting(0, 64)));
    assert!(entropy_reject(&[0u8; 64]));
    assert!(entropy_reject(&[7u8; 100]));
    let mut almost = [7u8; 100];
    almost[99] = 8;
    assert!(!entropy_reject(&almost));
}

#[test]
fn initialisation_gives_the_known_root_key() {
    let mut state = RootState::new();
    let mut pairing = Pairing::new();
    set_epoch_id(&mut state, 12);
    set_root_state_pend(&mut state, Some([5u8; 32]));
    let alice = counting(0, 64);
    let bob = counting(100, 80);
    assert_eq!(initialise_root_state(&mut state, &mut pairing, &alice, &bob, &[2u8; 1568]), 0);
    assert_eq!(
        read_root_state_curr(&state),
        [
            0x94, 0x32, 0x8c, 0x74, 0xdf, 0xaf, 0x98, 0xa0, 0xfc, 0x49, 0x87, 0xe2, 0xe3, 0xac, 0xb4, 0x69, 0x65, 0x37,
            0xde, 0x28, 0x35, 0x67, 0x4a, 0xba, 0xf5, 0x69, 0xf8, 0xb4, 0x91, 0xd6, 0xab, 0x5f
        ]
    );
    assert_eq!(read_epoch_id(&state), 0);
    assert_eq!(read_root_state_pend(&state), Some([5u8; 32]));
}

#[test]
fn initialisation_codes() {
    let mut state = RootState::new();
    let mut pairing = Pairing::new();
    let good = counting(0, 64);
    let weak = [0u8; 64];
    assert_eq!(initialise_root_state(&mut state, &mut pairing, &weak, &good, &[2u8; 8]), 2);
    assert_eq!(initialise_root_state(&mut state, &mut pairing, &good, &weak, &[2u8; 8]), 2);
    assert_eq!(initialise_root_state(&mut state, &mut pairing, &good, &good, &[]), 3);
    assert_eq!(read_root_state_curr(&state), [0u8; 32]);
    assert_eq!(initialise_root_state(&mut state, &mut pairing, &good, &good, &[2u8; 8]), 0);
}

#[test]
fn identity_stamp_is_the_known_one() {
    let expected: [u8; 32] = [
        0xe9, 0x2d, 0xe5, 0xc4, 0x36, 0x01, 0xe9, 0x1f, 0x40, 0x95, 0x8c, 0xd2, 0x76, 0xcd, 0x47, 0x75, 0x5b, 0xed, 0x8b,
        0x0c, 0x17, 0x40, 0xf5, 0x41, 0xbb, 0x77, 0xec, 0x2c, 0xf7, 0x62, 0xf1, 0xf2,
    ];
    assert_eq!(compute_id_stamp(&[1u8; 32], &[2u8; 1568]), expected);
    let mut state = RootState::new();
    let mut pairing = Pairing::new();
    install_root(&mut state, &mut pairing, [1u8; 32], &[2u8; 1568]);
    assert_eq!(generate_id_stamp_from_curr(&state, &pairing), expected);
    store_bob_public_key(&mut pairing, &[3u8; 1568]);
    assert_ne!(generate_id_stamp_from_curr(&state, &pairing), expected);
}

// ---------------------------------------------------------------------------
// Messages
// ---------------------------------------------------------------------------

#[test]
fn message_cipher_roundtrip() {
    let mut test_root = [0u8; 32];
    rand::RngCore::fill_bytes(&mut rand::rngs::OsRng, &mut test_root);
    let mut state = RootState::new();
    let mut counter = MsgCounter::new();
    set_root_state_curr(&mut state, test_root);

    let stamp = [1u8; 32];
    let seq: u64 = next_msg_seq(&mut counter);
    let key = derive_message_key(&state, 0, seq);
    let plain = b"Hello LinkChat !";
    let ct = encrypt(plain, &key, &stamp, true, 0, seq, 1000).expect("encrypt");
    let pt = decrypt(&ct, &key, &stamp, true, 0, seq, 1000).expect("roundtrip");
    assert_eq!(pt, plain);

    // Tampered AAD must reject
    assert!(decrypt(&ct, &key, &stamp, false, 0, seq, 1000).is_none());
    assert!(decrypt(&ct, &key, &stamp, true, 1, seq, 1000).is_none());
    // Replay with different seq MUST fail
    assert!(decrypt(&ct, &key, &stamp, true, 0, seq + 1, 1000).is_none());
}

#[test]
fn msg_seq_monotonic() {
    let mut counter = MsgCounter::new();
    let a: u64 = next_msg_seq(&mut counter);
    let b: u64 = next_msg_seq(&mut counter);
    assert!(b > a);
}

#[test]
fn key_changes_with_seq() {
    let mut test_root = [0u8; 32];
    rand::RngCore::fill_bytes(&mut rand::rngs::OsRng, &mut test_root);
    let mut state = RootState::new();
    set_root_state_curr(&mut state, test_root);

    let k1 = derive_message_key(&state, 0, 1);
    let k2 = derive_message_key(&state, 0, 2);
    assert_ne!(k1, k2);
}

#[test]
fn message_numbers_start_at_one() {
    let mut counter = MsgCounter::new();
    assert_eq!(current_msg_seq(&counter), 1);
    assert_eq!(next_msg_seq(&mut counter), 1);
    assert_eq!(next_msg_seq(&mut counter), 2);
    assert_eq!(current_msg_seq(&counter), 3);
    reset_msg_counter(&mut counter);
    assert_eq!(next_msg_seq(&mut counter), 1);
}

#[test]
fn message_key_is_the_known_one() {
    let expected: [u8; 32] = [
        0x6f, 0x6e, 0x22, 0x06, 0x5f, 0xa4, 0x3d, 0xdb, 0x02, 0x3e, 0x70, 0x75, 0x88, 0x0e, 0x5c, 0x8b, 0xe0, 0xf2, 0xdd,
        0xb1, 0xe5, 0x87, 0xe6, 0x50, 0xb9, 0x3c, 0x8f, 0x1d, 0xae, 0x86, 0x2c, 0x9b,
    ];
    assert_eq!(derive_message_key_from_root(&[1u8; 32], 7, 42), expected);
    let mut state = RootState::new();
    set_root_state_curr(&mut state, [1u8; 32]);
    assert_eq!(derive_message_key(&state, 7, 42), expected);
}

#[test]
fn key_input_nonce_and_associated_data_are_laid_out() {
    assert_eq!(key_info(0x0403_0201, 0x0c0b_0a09_0807_0605), [1, 2, 3, 4, 5, 6, 7, 8, 9, 10, 11, 12]);
    assert_eq!(build_nonce(7, 1000, 42), [7, 0, 0, 0, 0xc2, 3, 0, 0, 0, 0, 0, 0]);
    let aad = build_aad(&[5u8; 32], false, 7, 42, 1000);
    let mut expected: Vec<u8> = vec![5u8; 32];
    expected.extend_from_slice(&[1, 7, 0, 0, 0, 42, 0, 0, 0, 0, 0, 0, 0, 0xe8, 3, 0, 0, 0, 0, 0, 0, 4, 0]);
    assert_eq!(aad, expected);
    assert_eq!(build_aad(&[5u8; 32], true, 7, 42, 1000)[32], 0);
}

#[test]
fn wire_is_the_known_one() {
    let expected: [u8; 44] = [
        0x07, 0x00, 0x00, 0x00, 0xc2, 0x03, 0x00, 0x00, 0x00, 0x00, 0x00, 0x00, 0xc1, 0xad, 0x79, 0x46, 0xe1, 0xfc, 0x4f,
        0x6f, 0x53, 0xa3, 0x6d, 0xc2, 0xa1, 0x9f, 0x3b, 0xb3, 0x55, 0x92, 0x46, 0x1e, 0x8f, 0x58, 0x29, 0x84, 0x79, 0xe8,
        0xea, 0xe9, 0x67, 0xa6, 0xf6, 0xe5,
    ];
    let wire = encrypt(b"Hello LinkChat !", &[3u8; 32], &[1u8; 32], true, 7, 42, 1000).unwrap();
    assert_eq!(wire, expected);
    let plain = decrypt(&expected, &[3u8; 32], &[1u8; 32], true, 7, 42, 1000).unwrap();
    assert_eq!(plain, b"Hello LinkChat !");
}

#[test]
fn altered_wire_is_refused() {
    let wire = encrypt(b"x", &[3u8; 32], &[1u8; 32], true, 7, 42, 1000).unwrap();
    assert_eq!(wire.len(), 29);
    for i in 0..wire.len() {
        let mut bad = wire.clone();
        bad[i] ^= 1;
        assert!(decrypt(&bad, &[3u8; 32], &[1u8; 32], true, 7, 42, 1000).is_none());
    }
    assert!(decrypt(&wire[..27], &[3u8; 32], &[1u8; 32], true, 7, 42, 1000).is_none());
    assert!(decrypt(&[], &[3u8; 32], &[1u8; 32], true, 7, 42, 1000).is_none());
    assert!(decrypt(&wire, &[4u8; 32], &[1u8; 32], true, 7, 42, 1000).is_none());
    assert!(decrypt(&wire, &[3u8; 32], &[2u8; 32], true, 7, 42, 1000).is_none());
    assert!(decrypt(&wire, &[3u8; 32], &[1u8; 32], true, 7, 42, 1001).is_none());
}

#[test]
fn empty_message_travels() {
    let wire = encrypt(b"", &[3u8; 32], &[1u8; 32], false, 0, 1, 0).unwrap();
    assert_eq!(wire.len(), 28);
    assert_eq!(decrypt(&wire, &[3u8; 32], &[1u8; 32], false, 0, 1, 0), Some(Vec::new()));
}

#[test]
fn wire_is_joined_and_split() {
    let nonce: [u8; 12] = [1, 2, 3, 4, 5, 6, 7, 8, 9, 10, 11, 12];
    let sealed = [9u8; 16];
    let wire = join_wire(&nonce, &sealed);
    assert_eq!(wire.len(), 28);
    let (n, s) = split_wire(&wire).unwrap();
    assert_eq!(n, nonce);
    assert_eq!(s, &sealed[..]);
    assert!(split_wire(&wire[..27]).is_none());
}

#[test]
fn key_is_overwritten() {
    let mut key = [7u8; 40];
    zeroize_key(&mut key);
    assert_eq!(key, [0u8; 40]);
}

// ---------------------------------------------------------------------------
// Decryption across a commit
// ---------------------------------------------------------------------------

#[test]
fn message_from_ahead_commits() {
    let stamp = [1u8; 32];
    let mut mine = RootState::new();
    let mut counter = MsgCounter::new();
    set_root_state_curr(&mut mine, [10u8; 32]);
    set_root_state_pend(&mut mine, Some([11u8; 32]));
    set_epoch_id(&mut mine, 4);
    next_msg_seq(&mut counter);

    // A message of the current epoch leaves the pending key alone.
    let key = derive_message_key_from_root(&[10u8; 32], 4, 1);
    let wire = encrypt(b"now", &key, &stamp, false, 4, 1, 5).unwrap();
    let opened = try_decrypt_with_evolution(&mut mine, &mut counter, &wire, &stamp, false, 4, 1, 5);
    assert_eq!(opened, Some((b"now".to_vec(), false)));
    assert_eq!(read_epoch_id(&mine), 4);
    assert_eq!(current_msg_seq(&counter), 2);

    // The peer has committed and is one epoch ahead.
    let key = derive_message_key_from_root(&[11u8; 32], 5, 1);
    let wire = encrypt(b"ahead", &key, &stamp, false, 5, 1, 6).unwrap();
    let opened = try_decrypt_with_evolution(&mut mine, &mut counter, &wire, &stamp, false, 5, 1, 6);
    assert_eq!(opened, Some((b"ahead".to_vec(), true)));
    assert_eq!(read_root_state_curr(&mine), [11u8; 32]);
    assert_eq!(read_root_state_pend(&mine), None);
    assert_eq!(read_epoch_id(&mine), 5);
    assert_eq!(current_msg_seq(&counter), 1);
}

#[test]
fn message_that_fits_no_key_changes_nothing() {
    let stamp = [1u8; 32];
    let mut mine = RootState::new();
    let mut counter = MsgCounter::new();
    set_root_state_curr(&mut mine, [10u8; 32]);
    set_root_state_pend(&mut mine, Some([11u8; 32]));
    set_epoch_id(&mut mine, 4);

    // Two epochs ahead is too far for the pending key.
    let key = derive_message_key_from_root(&[11u8; 32], 6, 1);
    let wire = encrypt(b"far", &key, &stamp, false, 6, 1, 6).unwrap();
    assert_eq!(try_decrypt_with_evolution(&mut mine, &mut counter, &wire, &stamp, false, 6, 1, 6), None);
    // A strange key.
    let wire = encrypt(b"strange", &[0u8; 32], &stamp, false, 5, 1, 6).unwrap();
    assert_eq!(try_decrypt_with_evolution(&mut mine, &mut counter, &wire, &stamp, false, 5, 1, 6), None);
    assert_eq!(read_epoch_id(&mine), 4);
    assert_eq!(read_root_state_pend(&mine), Some([11u8; 32]));

    set_epoch_id(&mut mine, u32::MAX);
    assert_eq!(try_decrypt_with_evolution(&mut mine, &mut counter, &wire, &stamp, false, 0, 1, 6), None);
}

#[test]
fn settling_prefers_the_current_key() {
    let mut mine = RootState::new();
    let mut counter = MsgCounter::new();
    set_root_state_pend(&mut mine, Some([11u8; 32]));
    assert!(pending_applies(&mine, 1));
    assert!(!pending_applies(&mine, 0));
    assert!(!pending_applies(&mine, 2));
    assert_eq!(
        settle_message(&mut mine, &mut counter, 1, Some(vec![1]), Some(vec![2])),
        Some((vec![1], false))
    );
    assert_eq!(settle_message(&mut mine, &mut counter, 2, None, Some(vec![2])), None);
    assert_eq!(settle_message(&mut mine, &mut counter, 1, None, None), None);
    assert_eq!(settle_message(&mut mine, &mut counter, 1, None, Some(vec![2])), Some((vec![2], true)));
    assert_eq!(read_root_state_curr(&mine), [11u8; 32]);
    assert!(!pending_applies(&mine, 2));
}

// ---------------------------------------------------------------------------
// Evolution
// ---------------------------------------------------------------------------

#[test]
fn full_evolution_cycle() {
    let mut state = RootState::new();
    let mut counter = MsgCounter::new();
    let mut evo = EvolutionState::new();
    let key = [1u8; 32];
    set_root_state_curr(&mut state, key);
    set_epoch_id(&mut state, 0);

    let mut pk = vec![0u8; 1568];
    let mut sk = vec![0u8; 3168];
    assert_eq!(generate_bob_keypair(&mut evo, &mut pk, &mut sk), 0);

    set_peer_public_key(&mut evo, &pk);
    assert_eq!(start_evolution(&mut state, &mut evo), 0);
    let ct_len: usize = kem_cipher_len(&evo);
    assert!(ct_len > 0);
    let mut ct = vec![0u8; ct_len];
    assert_eq!(get_kem_cipher(&evo, &mut ct), ct_len);

    // Both sides derive the SAME pending key from the same shared secret
    let pend_before = read_root_state_pend(&state);
    assert!(pend_before.is_some());
    assert_eq!(apply_peer_kem(&mut state, &evo, &ct), 0);
    let pend_after = read_root_state_pend(&state);
    assert_eq!(pend_before, pend_after); // MUST be identical

    assert_eq!(commit_evolution(&mut state, &mut counter), 0);
    assert_eq!(read_epoch_id(&state), 1);
}

#[test]
fn peers_evolve_to_the_same_root_key() {
    let mut alice = RootState::new();
    let mut bob = RootState::new();
    let mut counter = MsgCounter::new();
    set_root_state_curr(&mut alice, [6u8; 32]);
    set_root_state_curr(&mut bob, [6u8; 32]);
    let mut alice_evo = EvolutionState::new();
    let mut bob_evo = EvolutionState::new();

    let mut pk = vec![0xeeu8; 1570];
    let mut sk = vec![0xeeu8; 3170];
    assert_eq!(generate_bob_keypair(&mut bob_evo, &mut pk, &mut sk), 0);
    assert_eq!(&pk[1568..], &[0xee, 0xee]);
    assert_eq!(&sk[3168..], &[0xee, 0xee]);
    set_peer_public_key(&mut alice_evo, &pk[..1568]);
    assert_eq!(start_evolution(&mut alice, &mut alice_evo), 0);
    assert_eq!(kem_cipher_len(&alice_evo), 1568);
    let mut ct = vec![0u8; 1568];
    get_kem_cipher(&alice_evo, &mut ct);
    assert_ne!(ct, pk[..1568].to_vec());
    assert_eq!(apply_peer_kem(&mut bob, &bob_evo, &ct), 0);
    assert_eq!(commit_evolution(&mut alice, &mut counter), 0);
    assert_eq!(commit_evolution(&mut bob, &mut counter), 0);
    assert_eq!(read_root_state_curr(&alice), read_root_state_curr(&bob));
    assert_ne!(read_root_state_curr(&alice), [6u8; 32]);
    assert_eq!(read_epoch_id(&bob), 1);
}

#[test]
fn evolution_codes() {
    let mut state = RootState::new();
    let mut evo = EvolutionState::new();
    assert_eq!(start_evolution(&mut state, &mut evo), 2);
    set_peer_public_key(&mut evo, &[1u8; 1567]);
    assert_eq!(start_evolution(&mut state, &mut evo), 1);
    assert_eq!(read_root_state_pend(&state), None);
    assert_eq!(kem_cipher_len(&evo), 0);

    assert_eq!(apply_peer_kem(&mut state, &evo, &[0u8; 1568]), 3);
    let mut pk = vec![0u8; 1568];
    let mut sk = vec![0u8; 3168];
    generate_bob_keypair(&mut evo, &mut pk, &mut sk);
    assert_eq!(apply_peer_kem(&mut state, &evo, &[0u8; 1567]), 2);
    assert_eq!(apply_peer_kem(&mut state, &evo, &[0u8; 1568]), 2);
    assert_eq!(read_root_state_pend(&state), None);
}

#[test]
fn pending_key_is_the_known_one() {
    let expected: [u8; 32] = [
        0xe4, 0x07, 0x47, 0xbc, 0xc5, 0x30, 0x9c, 0x53, 0x3f, 0x0b, 0xc8, 0xd9, 0xbf, 0xa1, 0x0a, 0x1f, 0x03, 0xb0, 0x8e,
        0x13, 0xcf, 0x02, 0xe8, 0x06, 0xc9, 0xa8, 0x25, 0xc0, 0x2a, 0xe4, 0x46, 0x47,
    ];
    assert_eq!(derive_pending_key(&[9u8; 32], &[1u8; 32]), expected);
    let mut state = RootState::new();
    set_root_state_curr(&mut state, [1u8; 32]);
    make_pending(&mut state, &[9u8; 32]);
    assert_eq!(read_root_state_pend(&state), Some(expected));
    assert_eq!(read_root_state_curr(&state), [1u8; 32]);
}

#[test]
fn kem_cipher_is_handed_out_as_far_as_it_fits() {
    let mut evo = EvolutionState::new();
    let mut out = [7u8; 4];
    assert_eq!(get_kem_cipher(&evo, &mut out), 0);
    assert_eq!(out, [7u8; 4]);
    keep_kem_cipher(&mut evo, &[8u8; 1568]);
    assert_eq!(get_kem_cipher(&evo, &mut out), 4);
    assert_eq!(out, [8u8; 4]);
    let mut long = [7u8; 1570];
    assert_eq!(get_kem_cipher(&evo, &mut long), 1568);
    assert_eq!(long[1567], 8);
    assert_eq!(long[1568], 7);
    evo.zeroize();
    assert_eq!(kem_cipher_len(&evo), 0);
}

#[test]
fn installed_keypair_is_copied_out() {
    let mut evo = EvolutionState::new();
    let mut pk = [0u8; 1568];
    let mut sk = [0u8; 3169];
    assert_eq!(install_keypair(&mut evo, &[1u8; 1568], &[2u8; 3168], &mut pk, &mut sk), 0);
    assert_eq!(pk, [1u8; 1568]);
    assert_eq!(sk[3167], 2);
    assert_eq!(sk[3168], 0);
}
