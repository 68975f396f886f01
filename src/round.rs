//! The round engine: the forward round, its inverse, and the key schedule.
use vstd::prelude::*;

verus! {

/// Right rotation amount of the round function.
pub const ALPHA: u32 = 8;

/// Left rotation amount of the round function.
pub const BETA: u32 = 3;

/// Number of rounds, and so of round keys in a schedule.
pub const ROUNDS: usize = 32;

/// `x` rotated right by `n` bits.
pub open spec fn rotr(x: u64, n: u32) -> u64
    recommends
        0 < n < 64,
{
    (x >> n) | (x << ((64 - n) as u32))
}

/// `x` rotated left by `n` bits.
pub open spec fn rotl(x: u64, n: u32) -> u64
    recommends
        0 < n < 64,
{
    (x << n) | (x >> ((64 - n) as u32))
}

/// One forward round on the half-blocks `(x, y)` under round key `k`.
pub open spec fn round_spec(x: u64, y: u64, k: u64) -> (u64, u64) {
    let x1 = ((rotr(x, ALPHA) + y) as u64) ^ k;
    (x1, rotl(y, BETA) ^ x1)
}

/// One inverse round on the half-blocks `(x, y)` under round key `k`.
pub open spec fn inv_round_spec(x: u64, y: u64, k: u64) -> (u64, u64) {
    let y1 = rotr(y ^ x, BETA);
    (rotl(((x ^ k) - y1) as u64, ALPHA), y1)
}

/// The key-derivation state `(k1, k2)` after `i` steps from `(k1, k2)`:
/// step `j` applies the round function with the step index `j` as its key.
pub open spec fn key_state(k1: u64, k2: u64, i: nat) -> (u64, u64)
    decreases i,
{
    if i == 0 {
        (k1, k2)
    } else {
        let (a, b) = key_state(k1, k2, (i - 1) as nat);
        round_spec(a, b, (i - 1) as u64)
    }
}

/// The round-key schedule of the master key halves `k1` (high) and `k2`
/// (low): entry `i` is the low half of the key-derivation state after `i` steps.
pub open spec fn schedule_spec(k1: u64, k2: u64) -> Seq<u64> {
    Seq::new(ROUNDS as nat, |i: int| key_state(k1, k2, i as nat).1)
}

proof fn lemma_rotations_cancel(x: u64)
    ensures
        rotr(rotl(x, BETA), BETA) == x,
        rotl(rotr(x, BETA), BETA) == x,
        rotr(rotl(x, ALPHA), ALPHA) == x,
        rotl(rotr(x, ALPHA), ALPHA) == x,
{
    assert(rotr(rotl(x, 3), 3) == x) by (bit_vector);
    assert(rotl(rotr(x, 3), 3) == x) by (bit_vector);
    assert(rotr(rotl(x, 8), 8) == x) by (bit_vector);
    assert(rotl(rotr(x, 8), 8) == x) by (bit_vector);
}

/// The inverse round undoes the round: for all half-blocks `x`, `y` and
/// every round key `k`, `inv_round(round(x, y, k), k) == (x, y)`.
pub proof fn lemma_inv_round_undoes_round(x: u64, y: u64, k: u64)
    ensures
        ({
            let (x1, y1) = round_spec(x, y, k);
            inv_round_spec(x1, y1, k) == (x, y)
        }),
{
    let (x1, y1) = round_spec(x, y, k);
    let a = rotr(x, ALPHA);
    let b = rotl(y, BETA);
    lemma_rotations_cancel(x);
    lemma_rotations_cancel(y);
    assert(y1 ^ x1 == b) by (bit_vector)
        requires
            y1 == b ^ x1,
    ;
    assert(((x1 ^ k) - y) as u64 == a) by (bit_vector)
        requires
            x1 == ((a + y) as u64) ^ k,
    ;
}

/// The round undoes the inverse round: for all half-blocks `x`, `y` and
/// every round key `k`, `round(inv_round(x, y, k), k) == (x, y)`.
pub proof fn lemma_round_undoes_inv_round(x: u64, y: u64, k: u64)
    ensures
        ({
            let (x1, y1) = inv_round_spec(x, y, k);
            round_spec(x1, y1, k) == (x, y)
        }),
{
    let (x1, y1) = inv_round_spec(x, y, k);
    let d = ((x ^ k) - y1) as u64;
    lemma_rotations_cancel(d);
    lemma_rotations_cancel(y ^ x);
    assert(((d + y1) as u64) ^ k == x) by (bit_vector)
        requires
            d == ((x ^ k) - y1) as u64,
    ;
    assert((y ^ x) ^ x == y) by (bit_vector);
}

fn rotate_right(x: u64, n: u32) -> (r: u64)
    requires
        0 < n < 64,
    ensures
        r == rotr(x, n),
{
    (x >> n) | (x << (64 - n))
}

fn rotate_left(x: u64, n: u32) -> (r: u64)
    requires
        0 < n < 64,
    ensures
        r == rotl(x, n),
{
    (x << n) | (x >> (64 - n))
}

/// Performs the Speck round function once, updating `x` and `y` in place:
/// `x = (x >>> ALPHA) + y ^ k`, then `y = (y <<< BETA) ^ x`.
pub fn round(x: &mut u64, y: &mut u64, k: &u64)
    ensures
        (*final(x), *final(y)) == round_spec(*old(x), *old(y), *k),
{
    let r = rotate_right(*x, ALPHA);
    let s = r.wrapping_add(*y);
    assert(s == (r + *y) as u64) by (bit_vector)
        requires
            s == (if r + *y > u64::MAX { (r + *y - 0x1_0000_0000_0000_0000) as u64 } else { (r
                + *y) as u64 }),
    ;
    *x = s ^ *k;
    *y = rotate_left(*y, BETA) ^ *x;
}

/// Performs the inverse of the round function once, updating `x` and `y`
/// in place: `y = (y ^ x) >>> BETA`, then `x = ((x ^ k) - y) <<< ALPHA`.
pub fn inv_round(x: &mut u64, y: &mut u64, k: &u64)
    ensures
        (*final(x), *final(y)) == inv_round_spec(*old(x), *old(y), *k),
{
    *y = rotate_right(*y ^ *x, BETA);
    let d = *x ^ *k;
    let s = d.wrapping_sub(*y);
    assert(s == (d - *y) as u64) by (bit_vector)
        requires
            s == (if d - *y < 0 { (d - *y + 0x1_0000_0000_0000_0000) as u64 } else { (d
                - *y) as u64 }),
    ;
    *x = rotate_left(s, ALPHA);
}

/// Computes the Speck key schedule via the round function, from the key
/// halves `k1` (high) and `k2` (low), which it advances through all rounds.
pub fn key_schedule(k1: &mut u64, k2: &mut u64) -> (r: [u64; ROUNDS])
    ensures
        r@ == schedule_spec(*old(k1), *old(k2)),
        (*final(k1), *final(k2)) == key_state(*old(k1), *old(k2), ROUNDS as nat),
{
    let ghost a = *k1;
    let ghost b = *k2;
    let mut schedule = [0u64; ROUNDS];
    let mut i: u64 = 0;
    while i < ROUNDS as u64
        invariant
            i <= ROUNDS,
            (*k1, *k2) == key_state(a, b, i as nat),
            forall|j: int| 0 <= j < i ==> schedule@[j] == key_state(a, b, j as nat).1,
        decreases ROUNDS - i,
    {
        schedule[i as usize] = *k2;
        round(k1, k2, &i);
        i = i + 1;
    }
    assert(schedule@ =~= schedule_spec(a, b));
    schedule
}

} // verus!
