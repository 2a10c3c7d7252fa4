//! The millisecond clock and the AES-128-CTR encryptor of the Unifying
//! protocol.

use crate::storage::AES_BLOCK_LEN;
use aes::Aes128;
use core::convert::Infallible;
use ctr::cipher::{KeyIvInit, StreamCipher};
use ctr::Ctr128BE;
use embassy_time::{Duration, Instant};
use vstd::prelude::*;

verus! {

/// Length of the plaintext of a keystroke.
pub const AES_DATA_LEN: usize = 8;

/// Ticks of the monotonic timer per second.
pub const TICKS_PER_SECOND: u64 = 32_768;

// The monotonic timer.

/// Calls `embassy_time::Instant::duration_since`: the ticks from `earlier` to
/// `now`. It panics if `earlier` lies behind `now`.
#[verifier::external_body]
fn ticks_since(now: u64, earlier: u64) -> (ticks: u64)
    requires
        earlier <= now,
    ensures
        ticks == now - earlier,
{
    Instant::from_ticks(now).duration_since(Instant::from_ticks(earlier)).as_ticks()
}

/// Calls `embassy_time::Duration::as_millis`: a number of ticks in milliseconds,
/// rounded down. At the 32768 ticks per second that the `time-driver-rtc1`
/// feature of `embassy-nrf` selects, it multiplies the ticks by 125 and divides
/// by 4096, and panics or wraps if the product does not fit into 64 bits.
#[verifier::external_body]
fn ticks_to_millis(ticks: u64) -> (millis: u64)
    requires
        ticks * 125 <= u64::MAX,
    ensures
        millis == ticks * 1000 / 32_768,
{
    Duration::from_ticks(ticks).as_millis()
}

/// A millisecond clock on the monotonic timer.
#[derive(Clone, Copy, Debug, PartialEq, Eq)]
pub struct EmbassyClock {
    /// The tick at which the clock was started.
    pub start: u64,
}

impl EmbassyClock {
    /// A clock that starts at the tick `now`.
    pub fn new(now: u64) -> (clock: Self)
        ensures
            clock.start == now,
    {
        EmbassyClock { start: now }
    }

    /// The milliseconds from the start of the clock to the tick `now`, rounded
    /// down, in 32 bits.
    pub fn millis(&self, now: u64) -> (millis: u32)
        requires
            self.start <= now,
            (now - self.start) * 125 <= u64::MAX,
        ensures
            millis == ((now - self.start) * 1000 / (TICKS_PER_SECOND as int)) % 0x1_0000_0000,
            millis == ((now - self.start) * 1000 / 32_768) % 0x1_0000_0000,
    {
        let elapsed: u64 = ticks_to_millis(ticks_since(now, self.start));
        assert(elapsed as u32 == elapsed % 0x1_0000_0000) by (bit_vector);
        #[verifier::truncate]
        (elapsed as u32)
    }
}

// AES-128 in counter mode.

/// The keystream of AES-128 in counter mode with a 128-bit big-endian counter
/// that starts at `iv`.
pub uninterp spec fn aes128_ctr_keystream(key: Seq<u8>, iv: Seq<u8>) -> Seq<u8>;

/// Calls `apply_keystream` of `ctr::Ctr128BE` over `aes::Aes128`: the bytes are
/// XORed in place with the start of the keystream, which depends on the key and
/// the IV alone. Which bytes the keystream holds is not said here.
#[verifier::external_body]
fn apply_keystream(
    data: &mut [u8; AES_DATA_LEN],
    key: &[u8; AES_BLOCK_LEN],
    iv: &[u8; AES_BLOCK_LEN],
)
    ensures
        forall|i: int|
            0 <= i < AES_DATA_LEN ==> #[trigger] final(data)@[i] == old(data)@[i]
                ^ aes128_ctr_keystream(key@, iv@)[i],
{
    let mut cipher = Ctr128BE::<Aes128>::new(key.into(), iv.into());
    cipher.apply_keystream(data);
}

/// `data` under the keystream of a key and an IV.
pub open spec fn aes128_ctr(data: Seq<u8>, key: Seq<u8>, iv: Seq<u8>) -> Seq<u8> {
    Seq::new(data.len(), |i: int| data[i] ^ aes128_ctr_keystream(key, iv)[i])
}

/// AES-128 in counter mode, for the encrypted-keystroke payloads: the 8
/// plaintext bytes are XORed with the keystream of the per-keystroke IV.
#[derive(Clone, Copy, Debug, Default, PartialEq, Eq)]
pub struct SwAesCtr;

impl SwAesCtr {
    /// Encrypts `data` in place.
    pub fn encrypt(
        &mut self,
        data: &mut [u8; AES_DATA_LEN],
        key: &[u8; AES_BLOCK_LEN],
        iv: &[u8; AES_BLOCK_LEN],
    ) -> (encrypted: Result<(), Infallible>)
        ensures
            encrypted is Ok,
            final(data)@ == aes128_ctr(old(data)@, key@, iv@),
            forall|i: int|
                0 <= i < AES_DATA_LEN ==> #[trigger] final(data)@[i] == old(data)@[i]
                    ^ aes128_ctr_keystream(key@, iv@)[i],
    {
        apply_keystream(data, key, iv);
        assert(data@ =~= aes128_ctr(old(data)@, key@, iv@));
        Ok(())
    }
}

/// Each byte is encrypted by the byte of the keystream at its place, for every
/// key and IV, and nothing is added or lost.
pub proof fn encryption_is_by_keystream(data: Seq<u8>, key: Seq<u8>, iv: Seq<u8>)
    ensures
        aes128_ctr(data, key, iv).len() == data.len(),
        forall|i: int|
            0 <= i < data.len() ==> #[trigger] aes128_ctr(data, key, iv)[i] == data[i]
                ^ aes128_ctr_keystream(key, iv)[i],
{
}

/// Encrypting twice under the same key and IV gives the plaintext back.
pub proof fn encrypt_twice(data: Seq<u8>, key: Seq<u8>, iv: Seq<u8>)
    ensures
        aes128_ctr(aes128_ctr(data, key, iv), key, iv) == data,
{
    assert forall|i: int| 0 <= i < data.len() implies aes128_ctr(
        aes128_ctr(data, key, iv),
        key,
        iv,
    )[i] == data[i] by {
        let d = data[i];
        let k = aes128_ctr_keystream(key, iv)[i];
        assert((d ^ k) ^ k == d) by (bit_vector);
    }
    assert(aes128_ctr(aes128_ctr(data, key, iv), key, iv) =~= data);
}

} // verus!
