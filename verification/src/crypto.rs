//! Sealed-buffer codec: seals and opens packet buffers in place with
//! ChaCha20Poly1305, binding each buffer to a key, a 64-bit counter nonce and
//! optional associated data. The trailing `MAC_SIZE` bytes of a sealed buffer
//! hold the detached authentication tag; the leading bytes hold the
//! ciphertext, which has exactly the length of the plaintext.
//!
//! The caller owns nonce discipline: for a given key, a nonce value must never
//! be used to seal two different plaintexts. The caller also owns key
//! zeroization.

use chacha20poly1305::aead::rand_core::RngCore;
use chacha20poly1305::AeadInPlace;
use chacha20poly1305::KeyInit;
use vstd::prelude::*;

verus! {

/// Size in bytes of a secret key.
pub const PRIVATE_KEY_SIZE: usize = 32;

/// Size in bytes of the detached authentication tag at the end of a sealed
/// buffer.
pub const MAC_SIZE: usize = 16;

/// Failure conditions of the codec.
#[derive(Clone, Copy, Debug, PartialEq, Eq, Structural)]
pub enum Error {
    /// The buffer is too short to hold even the authentication tag.
    BufferSizeMismatch,
    /// The cipher refused the input (message too long for one nonce), or the
    /// authentication tag did not verify on opening.
    Failed,
    /// The secure random source could not supply key material.
    GenerateKey,
}

/// The little-endian byte encoding of a 64-bit value: byte `i` holds
/// `(n / 256^i) % 256`.
pub open spec fn le64(n: u64) -> Seq<u8> {
    seq![
        (n % 256) as u8,
        ((n / 256) % 256) as u8,
        ((n / 65536) % 256) as u8,
        ((n / 16777216) % 256) as u8,
        ((n / 4294967296) % 256) as u8,
        ((n / 1099511627776) % 256) as u8,
        ((n / 281474976710656) % 256) as u8,
        ((n / 72057594037927936) % 256) as u8,
    ]
}

/// The 96-bit cipher nonce derived from the caller's 64-bit counter: four
/// zero bytes followed by the counter in little-endian order.
pub open spec fn nonce_seq(n: u64) -> Seq<u8> {
    seq![0u8, 0u8, 0u8, 0u8] + le64(n)
}

/// Builds the 12-byte cipher nonce for a 64-bit counter.
fn derive_nonce(nonce: u64) -> (r: Vec<u8>)
    ensures
        r@ == nonce_seq(nonce),
{
    let mut r: Vec<u8> = Vec::new();
    r.push(0);
    r.push(0);
    r.push(0);
    r.push(0);
    r.push((nonce % 256) as u8);
    r.push(((nonce / 256) % 256) as u8);
    r.push(((nonce / 65536) % 256) as u8);
    r.push(((nonce / 16777216) % 256) as u8);
    r.push(((nonce / 4294967296) % 256) as u8);
    r.push(((nonce / 1099511627776) % 256) as u8);
    r.push(((nonce / 281474976710656) % 256) as u8);
    r.push(((nonce / 72057594037927936) % 256) as u8);
    proof {
        assert(r@ =~= nonce_seq(nonce));
    }
    r
}

/// Whether a message of `len` bytes fits under one cipher nonce: the cipher
/// refuses a message that spans `2^32 - 1` or more 64-byte blocks.
pub open spec fn fits_cipher(len: nat) -> bool {
    len / 64 < 0xffff_ffff
}

/// The view of the associated data: an absent value means an empty byte
/// sequence, never "unauthenticated".
pub open spec fn aad_seq(ad: Option<&[u8]>) -> Seq<u8> {
    match ad {
        Some(a) => a@,
        None => Seq::<u8>::empty(),
    }
}

/// What XORing the ChaCha20 keystream for `(key, nonce)` into `data` yields.
pub uninterp spec fn xor_stream(key: Seq<u8>, nonce: Seq<u8>, data: Seq<u8>) -> Seq<u8>;

/// The 16-byte Poly1305 tag over the associated data and the ciphertext,
/// keyed by `(key, nonce)`.
pub uninterp spec fn tag_of(key: Seq<u8>, nonce: Seq<u8>, aad: Seq<u8>, ct: Seq<u8>) -> Seq<u8>;

/// Relies on `ChaCha20Poly1305::encrypt_in_place_detached` of the
/// chacha20poly1305 crate: it XORs the ChaCha20 keystream for `(key, nonce)`
/// into `msg` — an XOR, so applying the same keystream once more restores the
/// input — and returns the 16-byte Poly1305 tag over the associated data and
/// the resulting ciphertext. It fails only when the message spans `2^32 - 1`
/// or more 64-byte blocks, which the precondition rules out.
#[verifier::external_body]
fn aead_seal_detached(
    key: &[u8; PRIVATE_KEY_SIZE],
    nonce12: &Vec<u8>,
    aad: Option<&[u8]>,
    msg: &mut Vec<u8>,
) -> (r: Result<Vec<u8>, Error>)
    requires
        nonce12@.len() == 12,
        fits_cipher(old(msg)@.len() as nat),
    ensures
        r is Ok,
        final(msg)@.len() == old(msg)@.len(),
        final(msg)@ == xor_stream(key@, nonce12@, old(msg)@),
        xor_stream(key@, nonce12@, final(msg)@) == old(msg)@,
        r matches Ok(t) ==> t@ == tag_of(key@, nonce12@, aad_seq(aad), final(msg)@),
        r matches Ok(t) ==> t@.len() == MAC_SIZE,
{
    let ad: &[u8] = match aad {
        Some(a) => a,
        None => &[],
    };
    let tag = chacha20poly1305::ChaCha20Poly1305::new(key.into())
        .encrypt_in_place_detached(
            chacha20poly1305::Nonce::from_slice(nonce12.as_slice()),
            ad,
            msg.as_mut_slice(),
        )
        .map_err(|_| Error::Failed)?;
    Ok(tag.to_vec())
}

/// Relies on `ChaCha20Poly1305::decrypt_in_place_detached` of the
/// chacha20poly1305 crate: it recomputes the Poly1305 tag over the associated
/// data and the ciphertext, and only when it equals `tag` XORs the ChaCha20
/// keystream for `(key, nonce)` into `msg` — the same XOR that sealing
/// applies, so the result is the unique preimage of the ciphertext; on a tag
/// mismatch `msg` is untouched. The message-length refusal is ruled out by
/// the precondition.
#[verifier::external_body]
fn aead_open_detached(
    key: &[u8; PRIVATE_KEY_SIZE],
    nonce12: &Vec<u8>,
    aad: Option<&[u8]>,
    msg: &mut Vec<u8>,
    tag: &Vec<u8>,
) -> (r: Result<(), Error>)
    requires
        nonce12@.len() == 12,
        tag@.len() == MAC_SIZE,
        fits_cipher(old(msg)@.len() as nat),
    ensures
        r is Ok <==> tag@ == tag_of(key@, nonce12@, aad_seq(aad), old(msg)@),
        r is Err ==> final(msg)@ == old(msg)@,
        r is Ok ==> final(msg)@.len() == old(msg)@.len(),
        r is Ok ==> final(msg)@ == xor_stream(key@, nonce12@, old(msg)@),
        r is Ok ==> xor_stream(key@, nonce12@, final(msg)@) == old(msg)@,
{
    let ad: &[u8] = match aad {
        Some(a) => a,
        None => &[],
    };
    chacha20poly1305::ChaCha20Poly1305::new(key.into())
        .decrypt_in_place_detached(
            chacha20poly1305::Nonce::from_slice(nonce12.as_slice()),
            ad,
            msg.as_mut_slice(),
            chacha20poly1305::Tag::from_slice(tag.as_slice()),
        )
        .map_err(|_| Error::Failed)?;
    Ok(())
}

/// Relies on `OsRng::try_fill_bytes` of the rand_core crate (re-exported by
/// chacha20poly1305's aead): it fills the buffer from the operating system's
/// secure random source, or reports that no entropy could be supplied.
/// Nothing is assumed about the bytes themselves.
#[verifier::external_body]
pub fn generate_key() -> (r: Result<[u8; PRIVATE_KEY_SIZE], Error>)
    ensures
        r matches Err(e) ==> e == Error::GenerateKey,
{
    let mut key: [u8; PRIVATE_KEY_SIZE] = [0; PRIVATE_KEY_SIZE];
    match chacha20poly1305::aead::OsRng.try_fill_bytes(&mut key) {
        Ok(()) => Ok(key),
        Err(_) => Err(Error::GenerateKey),
    }
}

/// What sealing a plaintext `p` under `(key, nonce, aad)` leaves in the
/// buffer: the ciphertext — the keystream XOR of `p`, whose further keystream
/// XOR restores `p` — followed by the tag over the associated data and that
/// ciphertext.
pub open spec fn seals(key: Seq<u8>, nonce: u64, aad: Seq<u8>, p: Seq<u8>, sealed: Seq<u8>) -> bool {
    let ns = nonce_seq(nonce);
    let ct = sealed.take(p.len() as int);
    &&& sealed.len() == p.len() + MAC_SIZE
    &&& ct == xor_stream(key, ns, p)
    &&& xor_stream(key, ns, ct) == p
    &&& sealed.skip(p.len() as int) == tag_of(key, ns, aad, ct)
}

/// Whether the trailing tag of `sealed` verifies under `(key, nonce, aad)`:
/// it must equal the tag of the leading ciphertext region.
pub open spec fn tag_matches(key: Seq<u8>, nonce: u64, aad: Seq<u8>, sealed: Seq<u8>) -> bool {
    let cut = sealed.len() - MAC_SIZE;
    sealed.skip(cut) == tag_of(key, nonce_seq(nonce), aad, sealed.take(cut))
}

/// Seals `buffer` in place under `key`, the 64-bit counter `nonce` and the
/// optional associated data: encrypts `buffer[..len - MAC_SIZE]` and
/// overwrites the trailing `MAC_SIZE` bytes with the authentication tag.
///
/// Fails with `BufferSizeMismatch`, mutating nothing, when the buffer cannot
/// hold a tag, and with `Failed`, mutating nothing, when the plaintext is too
/// long for one cipher nonce; on every other input it succeeds.
pub fn encrypt(
    buffer: &mut Vec<u8>,
    associated_data: Option<&[u8]>,
    nonce: u64,
    key: &[u8; PRIVATE_KEY_SIZE],
) -> (r: Result<(), Error>)
    ensures
        old(buffer)@.len() < MAC_SIZE ==> r == Err::<(), Error>(Error::BufferSizeMismatch)
            && final(buffer)@ == old(buffer)@,
        old(buffer)@.len() >= MAC_SIZE && !fits_cipher((old(buffer)@.len() - MAC_SIZE) as nat)
            ==> r == Err::<(), Error>(Error::Failed) && final(buffer)@ == old(buffer)@,
        old(buffer)@.len() >= MAC_SIZE && fits_cipher((old(buffer)@.len() - MAC_SIZE) as nat)
            ==> r == Ok::<(), Error>(()) && seals(
                key@,
                nonce,
                aad_seq(associated_data),
                old(buffer)@.take(old(buffer)@.len() - MAC_SIZE as int),
                final(buffer)@,
            ),
{
    let size = buffer.len();
    if size < MAC_SIZE {
        return Err(Error::BufferSizeMismatch);
    }
    let msg_len = size - MAC_SIZE;
    if msg_len / 64 >= 0xffff_ffff {
        return Err(Error::Failed);
    }
    let nonce_bytes = derive_nonce(nonce);
    let ghost plain: Seq<u8> = buffer@.take(msg_len as int);
    let _tail = buffer.split_off(msg_len);
    let mut tag = match aead_seal_detached(key, &nonce_bytes, associated_data, buffer) {
        Ok(t) => t,
        Err(e) => {
            return Err(e);
        },
    };
    buffer.append(&mut tag);
    proof {
        assert(buffer@.take(plain.len() as int) =~= xor_stream(key@, nonce_seq(nonce), plain));
        assert(buffer@.skip(plain.len() as int) =~= tag_of(
            key@,
            nonce_seq(nonce),
            aad_seq(associated_data),
            buffer@.take(plain.len() as int),
        ));
    }
    Ok(())
}

/// Opens `buffer` in place under `key`, the 64-bit counter `nonce` and the
/// optional associated data — all three must be the ones used to seal it.
/// Verifies the trailing tag against the leading ciphertext region and, only
/// when it matches, decrypts that region in place; the tag bytes stay at the
/// end of the buffer.
///
/// Fails with `BufferSizeMismatch` when the buffer cannot hold a tag, and
/// with `Failed` when the ciphertext is too long for one cipher nonce or the
/// tag does not verify; on every failure the buffer is unchanged and nothing
/// of it is to be trusted as plaintext.
pub fn decrypt(
    buffer: &mut Vec<u8>,
    associated_data: Option<&[u8]>,
    nonce: u64,
    key: &[u8; PRIVATE_KEY_SIZE],
) -> (r: Result<(), Error>)
    ensures
        old(buffer)@.len() < MAC_SIZE ==> r == Err::<(), Error>(Error::BufferSizeMismatch)
            && final(buffer)@ == old(buffer)@,
        old(buffer)@.len() >= MAC_SIZE && !fits_cipher((old(buffer)@.len() - MAC_SIZE) as nat)
            ==> r == Err::<(), Error>(Error::Failed) && final(buffer)@ == old(buffer)@,
        old(buffer)@.len() >= MAC_SIZE && fits_cipher((old(buffer)@.len() - MAC_SIZE) as nat)
            ==> {
            let cut = old(buffer)@.len() - MAC_SIZE;
            let ct = old(buffer)@.take(cut);
            let ns = nonce_seq(nonce);
            if tag_matches(key@, nonce, aad_seq(associated_data), old(buffer)@) {
                &&& r == Ok::<(), Error>(())
                &&& final(buffer)@.len() == old(buffer)@.len()
                &&& final(buffer)@.take(cut) == xor_stream(key@, ns, ct)
                &&& xor_stream(key@, ns, final(buffer)@.take(cut)) == ct
                &&& final(buffer)@.skip(cut) == old(buffer)@.skip(cut)
            } else {
                r == Err::<(), Error>(Error::Failed) && final(buffer)@ == old(buffer)@
            }
        },
{
    let size = buffer.len();
    if size < MAC_SIZE {
        return Err(Error::BufferSizeMismatch);
    }
    let msg_len = size - MAC_SIZE;
    if msg_len / 64 >= 0xffff_ffff {
        return Err(Error::Failed);
    }
    let ghost whole: Seq<u8> = buffer@;
    let nonce_bytes = derive_nonce(nonce);
    let mut tag = buffer.split_off(msg_len);
    let outcome = aead_open_detached(key, &nonce_bytes, associated_data, buffer, &tag);
    buffer.append(&mut tag);
    proof {
        assert(whole.take(msg_len as int) == whole.subrange(0, msg_len as int));
        assert(whole.skip(msg_len as int) =~= whole.subrange(msg_len as int, whole.len() as int));
        if outcome is Err {
            assert(buffer@ =~= whole);
        } else {
            assert(buffer@.take(msg_len as int) =~= xor_stream(
                key@,
                nonce_seq(nonce),
                whole.take(msg_len as int),
            ));
            assert(buffer@.skip(msg_len as int) =~= whole.skip(msg_len as int));
        }
    }
    match outcome {
        Ok(()) => Ok(()),
        Err(_) => Err(Error::Failed),
    }
}

/// Round-trip law: a buffer that `encrypt` sealed from plaintext `p` under
/// `(key, nonce, aad)` opens under the same three parameters — the tag
/// verifies, and the ciphertext region decrypts back to exactly `p`. This
/// holds for every plaintext length, the empty plaintext included.
pub proof fn lemma_seal_open_round_trip(
    key: Seq<u8>,
    nonce: u64,
    aad: Seq<u8>,
    p: Seq<u8>,
    sealed: Seq<u8>,
)
    requires
        seals(key, nonce, aad, p, sealed),
    ensures
        sealed.len() == p.len() + MAC_SIZE,
        tag_matches(key, nonce, aad, sealed),
        xor_stream(key, nonce_seq(nonce), sealed.take(p.len() as int)) == p,
{
    assert(sealed.take(p.len() as int) == sealed.take(sealed.len() - MAC_SIZE));
}

} // verus!
