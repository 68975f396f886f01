//! The Speck128/128 block cipher: a keyed permutation of 128-bit blocks
//! built from 32 rounds of add-rotate-xor on two 64-bit half-blocks.
//!
//! The round engine lives in [`round`]; [`Speck`] owns an expanded key
//! schedule and runs it forward to encrypt and backward to decrypt.

pub mod cipher_modes;
pub mod round;

use vstd::prelude::*;

use crate::cipher_modes::ECB;
use crate::round::{
    inv_round, inv_round_spec, key_schedule, lemma_inv_round_undoes_round,
    lemma_round_undoes_inv_round, round, round_spec, schedule_spec, ROUNDS,
};

verus! {

/// The high half-block of a block.
pub open spec fn hi(b: u128) -> u64 {
    (b >> 64u128) as u64
}

/// The low half-block of a block.
pub open spec fn lo(b: u128) -> u64 {
    b as u64
}

/// The block whose high half is `x` and whose low half is `y`.
pub open spec fn join(x: u64, y: u64) -> u128 {
    (y as u128) | ((x as u128) << 64u128)
}

/// The round-key schedule that `key` expands to.
pub open spec fn key_schedule_of(key: u128) -> Seq<u64> {
    schedule_spec(hi(key), lo(key))
}

/// The half-blocks `(x, y)` after the first `n` rounds under the round keys `ks`.
pub open spec fn encrypt_rounds(x: u64, y: u64, ks: Seq<u64>, n: nat) -> (u64, u64)
    decreases n,
{
    if n == 0 {
        (x, y)
    } else {
        let (a, b) = encrypt_rounds(x, y, ks, (n - 1) as nat);
        round_spec(a, b, ks[n - 1])
    }
}

/// The half-blocks `(x, y)` after the inverse rounds under the round keys
/// `ks[n - 1]`, `ks[n - 2]`, ..., `ks[0]`, in that order.
pub open spec fn decrypt_rounds(x: u64, y: u64, ks: Seq<u64>, n: nat) -> (u64, u64)
    decreases n,
{
    if n == 0 {
        (x, y)
    } else {
        let (a, b) = inv_round_spec(x, y, ks[n - 1]);
        decrypt_rounds(a, b, ks, (n - 1) as nat)
    }
}

/// The encryption of `plaintext` under the round keys `ks`, all applied in order.
pub open spec fn speck_encrypt(ks: Seq<u64>, plaintext: u128) -> u128 {
    let (x, y) = encrypt_rounds(hi(plaintext), lo(plaintext), ks, ks.len());
    join(x, y)
}

/// The decryption of `ciphertext` under the round keys `ks`, applied last to first.
pub open spec fn speck_decrypt(ks: Seq<u64>, ciphertext: u128) -> u128 {
    let (x, y) = decrypt_rounds(hi(ciphertext), lo(ciphertext), ks, ks.len());
    join(x, y)
}

proof fn lemma_split_join(b: u128, x: u64, y: u64)
    ensures
        join(hi(b), lo(b)) == b,
        hi(join(x, y)) == x,
        lo(join(x, y)) == y,
{
    assert(((b as u64) as u128) | ((((b >> 64u128) as u64) as u128) << 64u128) == b)
        by (bit_vector);
    assert((((y as u128) | ((x as u128) << 64u128)) >> 64u128) as u64 == x) by (bit_vector);
    assert(((y as u128) | ((x as u128) << 64u128)) as u64 == y) by (bit_vector);
}

proof fn lemma_decrypt_rounds_undo(x: u64, y: u64, ks: Seq<u64>, n: nat)
    requires
        n <= ks.len(),
    ensures
        ({
            let (a, b) = encrypt_rounds(x, y, ks, n);
            decrypt_rounds(a, b, ks, n) == (x, y)
        }),
    decreases n,
{
    if n > 0 {
        let (a, b) = encrypt_rounds(x, y, ks, (n - 1) as nat);
        lemma_inv_round_undoes_round(a, b, ks[n - 1]);
        lemma_decrypt_rounds_undo(x, y, ks, (n - 1) as nat);
    }
}

proof fn lemma_encrypt_rounds_undo(x: u64, y: u64, ks: Seq<u64>, n: nat)
    requires
        n <= ks.len(),
    ensures
        ({
            let (a, b) = decrypt_rounds(x, y, ks, n);
            encrypt_rounds(a, b, ks, n) == (x, y)
        }),
    decreases n,
{
    if n > 0 {
        let (a, b) = inv_round_spec(x, y, ks[n - 1]);
        lemma_encrypt_rounds_undo(a, b, ks, (n - 1) as nat);
        lemma_round_undoes_inv_round(x, y, ks[n - 1]);
    }
}

/// Decryption undoes encryption: for every key and every plaintext block,
/// decrypting the encryption of the block under that key gives the block back.
pub proof fn lemma_decrypt_encrypt(key: u128, plaintext: u128)
    ensures
        speck_decrypt(key_schedule_of(key), speck_encrypt(key_schedule_of(key), plaintext))
            == plaintext,
{
    let ks = key_schedule_of(key);
    let (x, y) = encrypt_rounds(hi(plaintext), lo(plaintext), ks, ks.len());
    lemma_split_join(plaintext, x, y);
    lemma_decrypt_rounds_undo(hi(plaintext), lo(plaintext), ks, ks.len());
}

/// Encryption undoes decryption: for every key and every ciphertext block,
/// encrypting the decryption of the block under that key gives the block back.
pub proof fn lemma_encrypt_decrypt(key: u128, ciphertext: u128)
    ensures
        speck_encrypt(key_schedule_of(key), speck_decrypt(key_schedule_of(key), ciphertext))
            == ciphertext,
{
    let ks = key_schedule_of(key);
    let (x, y) = decrypt_rounds(hi(ciphertext), lo(ciphertext), ks, ks.len());
    lemma_split_join(ciphertext, x, y);
    lemma_encrypt_rounds_undo(hi(ciphertext), lo(ciphertext), ks, ks.len());
}

/// The schedule is a function of the key alone: equal keys give equal
/// schedules, each of exactly `ROUNDS` round keys.
pub proof fn lemma_schedule_determined_by_key(key1: u128, key2: u128)
    requires
        key1 == key2,
    ensures
        key_schedule_of(key1) == key_schedule_of(key2),
        key_schedule_of(key1).len() == ROUNDS,
{
}

/// Implements Speck encryption/decryption.
/// This tuple-struct holds the expanded key schedule.
pub struct Speck([u64; ROUNDS]);

impl View for Speck {
    type V = Seq<u64>;

    /// The round keys, in the order encryption applies them.
    closed spec fn view(&self) -> Seq<u64> {
        self.0@
    }
}

impl Speck {
    /// Expands `key` into its round-key schedule.
    pub fn new(key: &u128) -> (r: Self)
        ensures
            r@ == key_schedule_of(*key),
            r@.len() == ROUNDS,
    {
        let mut k1 = (*key >> 64) as u64;
        let mut k2 = *key as u64;
        Speck(key_schedule(&mut k1, &mut k2))
    }

    /// Performs a raw encryption of one block: the forward round under each
    /// round key, first to last.
    pub fn encrypt(&self, plaintext: &u128) -> (r: u128)
        ensures
            r == speck_encrypt(self@, *plaintext),
    {
        let mut chunk_1 = (*plaintext >> 64) as u64;
        let mut chunk_2 = *plaintext as u64;
        let ghost ks = self@;
        let mut i: usize = 0;
        while i < ROUNDS
            invariant
                ks == self.0@,
                ks.len() == ROUNDS,
                i <= ROUNDS,
                (chunk_1, chunk_2) == encrypt_rounds(hi(*plaintext), lo(*plaintext), ks, i as nat),
            decreases ROUNDS - i,
        {
            round(&mut chunk_1, &mut chunk_2, &self.0[i]);
            i = i + 1;
        }
        chunk_2 as u128 | (chunk_1 as u128) << 64
    }

    /// Performs a raw decryption of one block: the inverse round under each
    /// round key, last to first.
    pub fn decrypt(&self, ciphertext: &u128) -> (r: u128)
        ensures
            r == speck_decrypt(self@, *ciphertext),
    {
        let mut chunk_1 = (*ciphertext >> 64) as u64;
        let mut chunk_2 = *ciphertext as u64;
        let ghost ks = self@;
        let mut i: usize = ROUNDS;
        while i > 0
            invariant
                ks == self.0@,
                ks.len() == ROUNDS,
                i <= ROUNDS,
                decrypt_rounds(chunk_1, chunk_2, ks, i as nat) == decrypt_rounds(
                    hi(*ciphertext),
                    lo(*ciphertext),
                    ks,
                    ROUNDS as nat,
                ),
            decreases i,
        {
            i = i - 1;
            inv_round(&mut chunk_1, &mut chunk_2, &self.0[i]);
        }
        chunk_2 as u128 | (chunk_1 as u128) << 64
    }
}

impl ECB for Speck {
    open spec fn encrypt_block(&self, plaintext: u128) -> u128 {
        speck_encrypt(self@, plaintext)
    }

    open spec fn decrypt_block(&self, ciphertext: u128) -> u128 {
        speck_decrypt(self@, ciphertext)
    }

    fn encrypt(&self, plaintext: &u128) -> (r: u128) {
        Speck::encrypt(self, plaintext)
    }

    fn decrypt(&self, ciphertext: &u128) -> (r: u128) {
        Speck::decrypt(self, ciphertext)
    }
}

/// The ECB interface of a cipher encrypts and decrypts exactly as its raw
/// block operations do.
pub proof fn lemma_ecb_matches_raw(cipher: Speck, block: u128)
    ensures
        cipher.encrypt_block(block) == speck_encrypt(cipher@, block),
        cipher.decrypt_block(block) == speck_decrypt(cipher@, block),
{
}

/// ECB hides no repetition: under one cipher, equal plaintext blocks always
/// give equal ciphertext blocks, however often they are encrypted.
pub proof fn lemma_ecb_equal_blocks_equal_ciphertexts(cipher: Speck, p1: u128, p2: u128)
    requires
        p1 == p2,
    ensures
        cipher.encrypt_block(p1) == cipher.encrypt_block(p2),
{
}

} // verus!
