//! Cipher modes built on a raw block permutation.
use vstd::prelude::*;

verus! {

/// A trait for the Electronic Codebook (ECB) ciphermode.
/// WARNING: ECB is generally unsafe to use because it lacks diffusion:
/// equal plaintext blocks under one key give equal ciphertext blocks.
/// See: https://blog.filippo.io/the-ecb-penguin/ for details.
pub trait ECB {
    /// The ciphertext block that `encrypt` returns for `plaintext`.
    spec fn encrypt_block(&self, plaintext: u128) -> u128;

    /// The plaintext block that `decrypt` returns for `ciphertext`.
    spec fn decrypt_block(&self, ciphertext: u128) -> u128;

    fn encrypt(&self, plaintext: &u128) -> (r: u128)
        ensures
            r == self.encrypt_block(*plaintext),
    ;

    fn decrypt(&self, ciphertext: &u128) -> (r: u128)
        ensures
            r == self.decrypt_block(*ciphertext),
    ;
}

} // verus!
