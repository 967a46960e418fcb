//! Downloading a file directly from MEGA.
//!
//! MEGA encrypts file contents with AES-128 in CTR mode (big-endian counter),
//! so the content is decrypted on the fly. There is no resume (these are rare
//! fallbacks); the file is written fresh.

use crate::error::Error;
use crate::events::{progress_event, EngineEvent, EventView};
use crate::stream::{self, pick_size};
use ctr::cipher::{KeyIvInit, StreamCipher, StreamCipherSeek};
use vstd::prelude::*;

verus! {

/// The byte at a position of the AES-128 keystream in CTR mode with a 128-bit
/// big-endian counter, for a key and an initial counter block.
pub uninterp spec fn aes128_ctr_keystream(key: Seq<u8>, iv: Seq<u8>, position: int) -> u8;

/// `StreamCipher::apply_keystream` of `ctr::Ctr128BE<aes::Aes128>`, on a
/// cipher made with a key and an initial counter block and set to a position
/// of its keystream: each byte of the data is XORed with the keystream byte at
/// its position. That much is believed; what the keystream is, is not stated.
#[verifier::external_body]
fn apply_keystream(key: &[u8; 16], iv: &[u8; 16], position: u64, data: &Vec<u8>) -> (r: Vec<u8>)
    ensures
        r@.len() == data@.len(),
        forall|i: int|
            0 <= i < r@.len() ==> #[trigger] r@[i] == data@[i] ^ aes128_ctr_keystream(
                key@,
                iv@,
                position + i,
            ),
{
    let mut cipher = ctr::Ctr128BE::<aes::Aes128>::new(key.into(), iv.into());
    cipher.seek(position);
    let mut buf = data.clone();
    cipher.apply_keystream(&mut buf);
    buf
}

/// Content at a position of a file, decrypted (or encrypted: the two are the
/// same).
pub open spec fn decrypted(key: Seq<u8>, iv: Seq<u8>, position: int, data: Seq<u8>) -> Seq<u8> {
    Seq::new(data.len(), |i: int| data[i] ^ aes128_ctr_keystream(key, iv, position + i))
}

/// The initial counter block of a file: the nonce in its key, followed by a
/// zero block counter.
pub open spec fn initial_block(file_key: Seq<u8>) -> Seq<u8> {
    file_key.subrange(16, 24) + Seq::new(8, |i: int| 0u8)
}

/// The initial counter block for a file's key.
pub fn counter_block(file_key: &[u8; 32]) -> (r: [u8; 16])
    ensures
        r@ == initial_block(file_key@),
        forall|i: int| 0 <= i < 8 ==> #[trigger] r@[i] == file_key@[16 + i],
        forall|i: int| 8 <= i < 16 ==> #[trigger] r@[i] == 0,
{
    let mut iv: [u8; 16] = [0u8; 16];
    for i in 0..8usize
        invariant
            forall|j: int| 0 <= j < i ==> iv@[j] == file_key@[16 + j],
            forall|j: int| i <= j < 16 ==> iv@[j] == 0,
    {
        iv[i] = file_key[16 + i];
    }
    assert(iv@ =~= initial_block(file_key@));
    iv
}

/// A native download under way.
#[derive(Debug, PartialEq, Eq)]
pub struct NativeDownload {
    /// The AES key.
    pub key: [u8; 16],
    /// The initial counter block.
    pub iv: [u8; 16],
    /// The size that the file must have in the end; zero or less if unknown.
    pub total: i64,
    /// How many bytes of the file are there.
    pub downloaded: i64,
}

impl NativeDownload {
    /// Starts a download, given the AES key folded from the file's key, the
    /// file's key itself, the size in the tree and the size that MEGA gave.
    pub fn begin(aes_key: [u8; 16], file_key: &[u8; 32], expected: i64, size: i64) -> (r: Self)
        ensures
            r.key@ == aes_key@,
            r.iv@ == initial_block(file_key@),
            forall|i: int| 0 <= i < 8 ==> #[trigger] r.iv@[i] == file_key@[16 + i],
            forall|i: int| 8 <= i < 16 ==> #[trigger] r.iv@[i] == 0,
            r.total == stream::known_size(expected, size),
            expected > 0 ==> r.total == expected,
            expected <= 0 ==> r.total == size,
            r.downloaded == 0,
    {
        NativeDownload {
            key: aes_key,
            iv: counter_block(file_key),
            total: pick_size(expected, size),
            downloaded: 0,
        }
    }

    /// Decrypts the next chunk of the content and counts it.
    pub fn decrypt(&mut self, chunk: &Vec<u8>) -> (r: Vec<u8>)
        requires
            old(self).downloaded >= 0,
            old(self).downloaded + chunk@.len() <= i64::MAX,
        ensures
            r@ == decrypted(
                old(self).key@,
                old(self).iv@,
                old(self).downloaded as int,
                chunk@,
            ),
            r@.len() == chunk@.len(),
            forall|i: int|
                0 <= i < chunk@.len() ==> #[trigger] r@[i] == chunk@[i] ^ aes128_ctr_keystream(
                    old(self).key@,
                    old(self).iv@,
                    old(self).downloaded + i,
                ),
            final(self).downloaded == old(self).downloaded + chunk@.len(),
            final(self).key == old(self).key,
            final(self).iv == old(self).iv,
            final(self).total == old(self).total,
    {
        let plain = apply_keystream(&self.key, &self.iv, self.downloaded as u64, chunk);
        assert(plain@ =~= decrypted(self.key@, self.iv@, self.downloaded as int, chunk@));
        self.downloaded = (self.downloaded as i128 + chunk.len() as i128) as i64;
        plain
    }

    /// The event that reports how far the file has come.
    pub fn progress(&self, job_id: &str, handle: &str) -> (r: EngineEvent)
        ensures
            r@ == (EventView::Progress {
                job_id: job_id@,
                handle: handle@,
                bytes_done: self.downloaded,
                bytes_total: self.total,
            }),
    {
        progress_event(job_id, handle, self.downloaded, self.total)
    }

    /// Ends the download: with a known size, only a whole file is accepted.
    pub fn complete(&self) -> (r: Result<i64, Error>)
        ensures
            r is Ok <==> stream::is_whole(self.total, self.downloaded),
            r is Ok <==> self.total <= 0 || self.downloaded == self.total,
            r matches Ok(n) ==> n == self.downloaded,
            r matches Err(e) ==> e == (Error::Incomplete {
                got: self.downloaded,
                expected: self.total,
            }),
    {
        if self.total > 0 && self.downloaded != self.total {
            Err(Error::Incomplete { got: self.downloaded, expected: self.total })
        } else {
            Ok(self.downloaded)
        }
    }
}

// ---------------------------------------------------------------------------
// Laws
// ---------------------------------------------------------------------------

/// The content does not depend on how it arrives in chunks: decrypting two
/// pieces one after the other is decrypting them together.
pub proof fn chunks_decrypt_like_the_whole(
    key: Seq<u8>,
    iv: Seq<u8>,
    position: int,
    a: Seq<u8>,
    b: Seq<u8>,
)
    ensures
        decrypted(key, iv, position, a + b) == decrypted(key, iv, position, a) + decrypted(
            key,
            iv,
            position + a.len(),
            b,
        ),
{
    assert(decrypted(key, iv, position, a + b) =~= decrypted(key, iv, position, a) + decrypted(
        key,
        iv,
        position + a.len(),
        b,
    ));
}

/// Decrypting undoes encrypting.
pub proof fn decrypting_undoes_encrypting(
    key: Seq<u8>,
    iv: Seq<u8>,
    position: int,
    data: Seq<u8>,
)
    ensures
        decrypted(key, iv, position, decrypted(key, iv, position, data)) == data,
{
    let once = decrypted(key, iv, position, data);
    let twice = decrypted(key, iv, position, once);
    assert forall|i: int| 0 <= i < data.len() implies twice[i] == data[i] by {
        let k = aes128_ctr_keystream(key, iv, position + i);
        let d = data[i];
        assert((d ^ k) ^ k == d) by (bit_vector);
    }
    assert(twice =~= data);
}

/// Every byte is deciphered, however far into the file it stands: content that
/// was enciphered with the keystream from a position on is given back byte for
/// byte.
pub proof fn every_byte_is_deciphered(
    key: Seq<u8>,
    iv: Seq<u8>,
    position: int,
    plain: Seq<u8>,
    sealed: Seq<u8>,
)
    requires
        sealed.len() == plain.len(),
        forall|i: int|
            0 <= i < plain.len() ==> #[trigger] sealed[i] == plain[i] ^ aes128_ctr_keystream(
                key,
                iv,
                position + i,
            ),
    ensures
        decrypted(key, iv, position, sealed) == plain,
{
    let out = decrypted(key, iv, position, sealed);
    assert forall|i: int| 0 <= i < plain.len() implies out[i] == plain[i] by {
        let k = aes128_ctr_keystream(key, iv, position + i);
        let d = plain[i];
        assert(sealed[i] == d ^ k);
        assert((d ^ k) ^ k == d) by (bit_vector);
    }
    assert(out =~= plain);
}

/// A byte is changed by the keystream at its own position only: what stands
/// before it, how many bytes arrive with it and which chunk it comes in play no
/// part.
pub proof fn bytes_are_deciphered_one_by_one(
    key: Seq<u8>,
    iv: Seq<u8>,
    position: int,
    data: Seq<u8>,
    i: int,
)
    requires
        0 <= i < data.len(),
    ensures
        decrypted(key, iv, position, data).len() == data.len(),
        decrypted(key, iv, position, data)[i] == data[i] ^ aes128_ctr_keystream(
            key,
            iv,
            position + i,
        ),
        decrypted(key, iv, position, data)[i] == decrypted(key, iv, position + i, seq![data[i]])[0],
{
}

/// The nonce of a file is the third quarter of its key, and the block counter
/// starts at zero: two keys that agree there give the same initial block, and
/// no others do.
pub proof fn the_nonce_is_in_the_key(a: Seq<u8>, b: Seq<u8>)
    requires
        a.len() == 32,
        b.len() == 32,
    ensures
        initial_block(a).len() == 16,
        forall|i: int| 0 <= i < 8 ==> #[trigger] initial_block(a)[i] == a[16 + i],
        forall|i: int| 8 <= i < 16 ==> #[trigger] initial_block(a)[i] == 0,
        initial_block(a) == initial_block(b) <==> forall|i: int| 16 <= i < 24 ==> a[i] == b[i],
{
    if initial_block(a) == initial_block(b) {
        assert forall|i: int| 16 <= i < 24 implies a[i] == b[i] by {
            assert(initial_block(a)[i - 16] == a[i]);
            assert(initial_block(b)[i - 16] == b[i]);
        }
    }
    if forall|i: int| 16 <= i < 24 ==> a[i] == b[i] {
        assert(initial_block(a) =~= initial_block(b));
    }
}

} // verus!
