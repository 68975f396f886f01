use speck::cipher_modes::ECB;
use speck::round::{inv_round, key_schedule, round, ALPHA, BETA, ROUNDS};
use speck::Speck;

const KEY: u128 = 0x0f0e0d0c0b0a09080706050403020100;
const PLAINTEXT: u128 = 0x6c617669757165207469206564616d20;
const CIPHERTEXT: u128 = 0xa65d9851797832657860fedf5c570d18;

fn schedule_of(key: u128) -> [u64; ROUNDS] {
    let mut k1 = (key >> 64) as u64;
    let mut k2 = key as u64;
    key_schedule(&mut k1, &mut k2)
}

#[test]
fn test_speck128_128_encryption_and_decryption() {
    // Speck128/128 test vectors (see Appendix C in the paper)
    let key: u128 = 0x0f0e0d0c0b0a09080706050403020100;
    let plaintext: u128 = 0x6c617669757165207469206564616d20;
    let ciphertext: u128 = 0xa65d9851797832657860fedf5c570d18;

    let speck = Speck::new(&key);
    assert_eq!(speck.encrypt(&plaintext), ciphertext);
    assert_eq!(speck.decrypt(&ciphertext), plaintext);
}

#[test]
fn test_speck_ecb_mode() {
    let key: u128 = 0x0f0e0d0c0b0a09080706050403020100;
    let plaintext: u128 = 0x6c617669757165207469206564616d20;
    let ciphertext: u128 = 0xa65d9851797832657860fedf5c570d18;

    let speck = Speck::new(&key);
    assert_eq!(<Speck as ECB>::encrypt(&speck, &plaintext), ciphertext);
    assert_eq!(<Speck as ECB>::decrypt(&speck, &ciphertext), plaintext);
}

const SAMPLES: [u64; 6] = [
    0,
    u64::MAX,
    0xaaaa_aaaa_aaaa_aaaa,
    0x5555_5555_5555_5555,
    0x0123_4567_89ab_cdef,
    0x8000_0000_0000_0001,
];

#[test]
fn round_then_inverse_is_identity_on_boundary_values() {
    for &x in SAMPLES.iter() {
        for &y in SAMPLES.iter() {
            for &k in SAMPLES.iter() {
                let (mut a, mut b) = (x, y);
                round(&mut a, &mut b, &k);
                inv_round(&mut a, &mut b, &k);
                assert_eq!((a, b), (x, y));
                let (mut c, mut d) = (x, y);
                inv_round(&mut c, &mut d, &k);
                round(&mut c, &mut d, &k);
                assert_eq!((c, d), (x, y));
            }
        }
    }
}

#[test]
fn round_exact_values() {
    let (mut x, mut y) = (1u64, 0u64);
    round(&mut x, &mut y, &0);
    assert_eq!(x, 1u64 << 56);
    assert_eq!(y, 1u64 << 56);

    // (0 >>> 8) + 1 = 1, xor 2 = 3; (1 <<< 3) ^ 3 = 8 ^ 3 = 11
    let (mut x, mut y) = (0u64, 1u64);
    round(&mut x, &mut y, &2);
    assert_eq!((x, y), (3, 11));

    // the addition wraps: (MAX >>> 8) + 1 = 0
    let (mut x, mut y) = (u64::MAX, 1u64);
    round(&mut x, &mut y, &0);
    assert_eq!((x, y), (0, 8));
}

#[test]
fn inv_round_exact_values() {
    let (mut x, mut y) = (3u64, 11u64);
    inv_round(&mut x, &mut y, &2);
    assert_eq!((x, y), (0, 1));

    // the subtraction wraps: (0 ^ 0) - 1 = MAX
    let (mut x, mut y) = (0u64, 8u64);
    inv_round(&mut x, &mut y, &0);
    assert_eq!((x, y), (u64::MAX, 1));
}

#[test]
fn decrypt_inverts_encrypt_for_many_keys_and_blocks() {
    let mut state: u128 = 0x9e37_79b9_7f4a_7c15_f39c_c060_5ced_c834;
    for _ in 0..64 {
        state = state
            .wrapping_mul(0x2360_ed05_1fc6_5da4_4385_df64_9fcc_f645)
            .wrapping_add(0x5851_f42d_4c95_7f2d_1405_7b7e_f767_814f);
        let key = state;
        let block = state.rotate_left(37) ^ 0x0123_4567_89ab_cdef_fedc_ba98_7654_3210;
        let speck = Speck::new(&key);
        assert_eq!(speck.decrypt(&speck.encrypt(&block)), block);
        assert_eq!(speck.encrypt(&speck.decrypt(&block)), block);
    }
    for &key in [0u128, u128::MAX].iter() {
        let speck = Speck::new(&key);
        for &block in [0u128, u128::MAX, 1u128 << 64, u64::MAX as u128].iter() {
            assert_eq!(speck.decrypt(&speck.encrypt(&block)), block);
            assert_eq!(speck.encrypt(&speck.decrypt(&block)), block);
        }
    }
}

#[test]
fn encryption_changes_the_block() {
    let speck = Speck::new(&KEY);
    assert_ne!(speck.encrypt(&PLAINTEXT), PLAINTEXT);
    assert_ne!(speck.decrypt(&CIPHERTEXT), CIPHERTEXT);
}

#[test]
fn known_answer_vector_round_trips() {
    let speck = Speck::new(&KEY);
    let c = speck.encrypt(&PLAINTEXT);
    assert_eq!(c, CIPHERTEXT);
    assert_eq!(speck.decrypt(&c), PLAINTEXT);
}

#[test]
fn key_schedule_is_deterministic() {
    assert_eq!(schedule_of(KEY), schedule_of(KEY));
    let a = Speck::new(&KEY);
    let b = Speck::new(&KEY);
    assert_eq!(a.encrypt(&PLAINTEXT), b.encrypt(&PLAINTEXT));
}

#[test]
fn key_schedule_one_bit_change_alters_most_entries() {
    let base = schedule_of(KEY);
    for bit in [0u32, 1, 63, 64, 100, 127].iter() {
        let other = schedule_of(KEY ^ (1u128 << bit));
        let differing = base.iter().zip(other.iter()).filter(|(a, b)| a != b).count();
        assert!(differing > ROUNDS / 2, "bit {} changed only {} entries", bit, differing);
    }
}

#[test]
fn key_schedule_starts_from_low_key_half_and_advances_key() {
    let mut k1 = (KEY >> 64) as u64;
    let mut k2 = KEY as u64;
    let schedule = key_schedule(&mut k1, &mut k2);
    assert_eq!(schedule.len(), 32);
    assert_eq!(schedule[0], KEY as u64);

    // entry 1 is the low half after one round under step index 0
    let (mut a, mut b) = ((KEY >> 64) as u64, KEY as u64);
    round(&mut a, &mut b, &0);
    assert_eq!(schedule[1], b);

    // the halves end after all rounds, one past the last recorded entry
    let (mut a, mut b) = ((KEY >> 64) as u64, KEY as u64);
    for i in 0..ROUNDS as u64 {
        round(&mut a, &mut b, &i);
    }
    assert_eq!((k1, k2), (a, b));
}

#[test]
fn round_count_and_rotation_constants() {
    assert_eq!(ROUNDS, 32);
    assert_eq!(ALPHA, 8);
    assert_eq!(BETA, 3);
}

#[test]
fn ecb_interface_matches_raw_operations() {
    for &key in [KEY, 0, u128::MAX, 0x1234_5678_9abc_def0_0fed_cba9_8765_4321].iter() {
        let speck = Speck::new(&key);
        for &block in [PLAINTEXT, CIPHERTEXT, 0, u128::MAX].iter() {
            assert_eq!(<Speck as ECB>::encrypt(&speck, &block), speck.encrypt(&block));
            assert_eq!(<Speck as ECB>::decrypt(&speck, &block), speck.decrypt(&block));
        }
    }
}

#[test]
fn ecb_equal_blocks_give_equal_ciphertexts() {
    let speck = Speck::new(&KEY);
    let first = <Speck as ECB>::encrypt(&speck, &PLAINTEXT);
    let second = <Speck as ECB>::encrypt(&speck, &PLAINTEXT);
    assert_eq!(first, second);
    assert_ne!(<Speck as ECB>::encrypt(&speck, &(PLAINTEXT ^ 1)), first);
}
