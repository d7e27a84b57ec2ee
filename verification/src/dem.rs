//! The data-encapsulation mechanism: ChaCha20-Poly1305 keyed through
//! HKDF-BLAKE2b from the KEM seed, with the capsule's canonical bytes as
//! associated data and the nonce carried after the ciphertext.

use crate::random_oracles::opt_bytes;
use chacha20poly1305::aead::{Aead, Payload};
use chacha20poly1305::{ChaCha20Poly1305, KeyInit};
use rand_core::{OsRng, RngCore};
use vstd::prelude::*;

verus! {

/// The 32-byte HKDF-BLAKE2b-512 output for the given keying material, salt
/// and info.
pub uninterp spec fn hkdf_blake2b(ikm: Seq<u8>, salt: Option<Seq<u8>>, info: Option<Seq<u8>>) -> Seq<
    u8,
>;

/// The ChaCha20-Poly1305 sealing of `msg` under `key` and `nonce` with
/// associated data `aad`: the ciphertext with its 16-byte tag appended.
pub uninterp spec fn chacha20poly1305_seal(
    key: Seq<u8>,
    nonce: Seq<u8>,
    aad: Seq<u8>,
    msg: Seq<u8>,
) -> Seq<u8>;

/// The ChaCha20-Poly1305 opening of `ct` (ciphertext plus tag) under `key`
/// and `nonce` with associated data `aad`: the plaintext, or `None` when
/// the tag does not verify.
pub uninterp spec fn chacha20poly1305_open(
    key: Seq<u8>,
    nonce: Seq<u8>,
    aad: Seq<u8>,
    ct: Seq<u8>,
) -> Option<Seq<u8>>;

/// Relies on `hkdf::SimpleHkdf::<blake2::Blake2b512>` (`new` then
/// `expand`): 32 bytes that are a function of keying material, salt and
/// info alone; `expand` cannot fail for a 32-byte output.
#[verifier::external_body]
pub fn kdf(seed: &[u8], salt: Option<&[u8]>, info: Option<&[u8]>) -> (r: Vec<u8>)
    ensures
        r@ == hkdf_blake2b(seed@, opt_bytes(salt), opt_bytes(info)),
        r@.len() == 32,
{
    let hk = hkdf::SimpleHkdf::<blake2::Blake2b512>::new(salt, seed);
    let mut okm = [0u8; 32];
    hk.expand(info.unwrap_or(&[]), &mut okm).unwrap();
    okm.to_vec()
}

/// Relies on `rand_core::OsRng::fill_bytes`: a fresh 12-byte nonce.
#[verifier::external_body]
fn random_nonce() -> (r: Vec<u8>)
    ensures
        r@.len() == 12,
{
    let mut nonce = [0u8; 12];
    OsRng.fill_bytes(&mut nonce);
    nonce.to_vec()
}

/// Relies on `chacha20poly1305::ChaCha20Poly1305` (`new` then
/// `Aead::encrypt`): sealing is deterministic in key, nonce, associated
/// data and message, appends a 16-byte tag, and what it seals, opening
/// under the same key, nonce and associated data gives back.  Sealing only
/// fails beyond the scheme's length bound, far above the required length.
#[verifier::external_body]
fn chacha_seal(key: &[u8], nonce: &[u8], aad: &[u8], msg: &[u8]) -> (r: Vec<u8>)
    requires
        key@.len() == 32,
        nonce@.len() == 12,
        msg@.len() < 0x4000_0000,
    ensures
        r@ == chacha20poly1305_seal(key@, nonce@, aad@, msg@),
        r@.len() == msg@.len() + 16,
        chacha20poly1305_open(key@, nonce@, aad@, r@) == Some(msg@),
{
    let cipher = ChaCha20Poly1305::new(chacha20poly1305::Key::from_slice(key));
    let payload = Payload { msg, aad };
    cipher.encrypt(chacha20poly1305::Nonce::from_slice(nonce), payload).unwrap()
}

/// Relies on `chacha20poly1305::ChaCha20Poly1305` (`new` then
/// `Aead::decrypt`): opening returns the sealed plaintext or fails on a tag
/// mismatch, deterministically in its inputs.
#[verifier::external_body]
fn chacha_open(key: &[u8], nonce: &[u8], aad: &[u8], ct: &[u8]) -> (r: Option<Vec<u8>>)
    requires
        key@.len() == 32,
        nonce@.len() == 12,
    ensures
        match r {
            Some(m) => chacha20poly1305_open(key@, nonce@, aad@, ct@) == Some(m@),
            None => chacha20poly1305_open(key@, nonce@, aad@, ct@) is None,
        },
{
    let cipher = ChaCha20Poly1305::new(chacha20poly1305::Key::from_slice(key));
    let payload = Payload { msg: ct, aad };
    cipher.decrypt(chacha20poly1305::Nonce::from_slice(nonce), payload).ok()
}

/// What a ciphertext is made of: the sealed bytes (ciphertext plus tag) and
/// the nonce they were sealed under.
pub struct CiphertextView {
    pub data: Seq<u8>,
    pub nonce: Seq<u8>,
}

/// A DEM output: sealed bytes and their nonce.  Canonically encoded as
/// `data || nonce`, the 12-byte nonce last.
pub struct Ciphertext {
    data: Vec<u8>,
    nonce: Vec<u8>,
}

impl View for Ciphertext {
    type V = CiphertextView;

    closed spec fn view(&self) -> CiphertextView {
        CiphertextView { data: self.data@, nonce: self.nonce@ }
    }
}

impl Ciphertext {
    #[verifier::type_invariant]
    pub(crate) open spec fn type_inv(self) -> bool {
        self@.nonce.len() == 12
    }

    /// The canonical encoding: sealed bytes, then the 12-byte nonce.
    pub fn to_bytes(&self) -> (r: Vec<u8>)
        ensures
            r@ == self@.data + self@.nonce,
    {
        proof {
            use_type_invariant(self);
        }
        let mut r = self.data.clone();
        r.extend_from_slice(self.nonce.as_slice());
        r
    }

    /// Accepts any byte string long enough to hold a tag and a nonce,
    /// splitting the nonce off the end.
    pub fn from_bytes(b: &[u8]) -> (r: Option<Ciphertext>)
        ensures
            match r {
                Some(c) => b@.len() >= 28 && c@.data == b@.subrange(0, b@.len() - 12) && c@.nonce
                    == b@.subrange(b@.len() - 12, b@.len() as int),
                None => b@.len() < 28,
            },
    {
        if b.len() < 28 {
            return None;
        }
        let mut data: Vec<u8> = Vec::new();
        let mut nonce: Vec<u8> = Vec::new();
        let split: usize = b.len() - 12;
        let mut i: usize = 0;
        while i < split
            invariant
                i <= split,
                split == b@.len() - 12,
                28 <= b@.len(),
                data@ =~= b@.subrange(0, i as int),
            decreases split - i,
        {
            data.push(b[i]);
            proof {
                assert(data@ =~= b@.subrange(0, i + 1));
            }
            i = i + 1;
        }
        while i < b.len()
            invariant
                split <= i <= b@.len(),
                split == b@.len() - 12,
                28 <= b@.len(),
                nonce@ =~= b@.subrange(split as int, i as int),
            decreases b@.len() - i,
        {
            nonce.push(b[i]);
            proof {
                assert(nonce@ =~= b@.subrange(split as int, i + 1));
            }
            i = i + 1;
        }
        Some(Ciphertext { data, nonce })
    }
}

/// The symmetric cipher, keyed by 32 bytes derived from the KEM seed.
pub struct UmbralDEM {
    key: Vec<u8>,
}

impl View for UmbralDEM {
    type V = Seq<u8>;

    closed spec fn view(&self) -> Seq<u8> {
        self.key@
    }
}

impl UmbralDEM {
    #[verifier::type_invariant]
    pub(crate) open spec fn type_inv(self) -> bool {
        self@.len() == 32
    }

    /// Derives the cipher key from the KEM seed by HKDF-BLAKE2b.
    pub fn new(key_seed: &[u8]) -> (r: UmbralDEM)
        ensures
            r@ == hkdf_blake2b(key_seed@, None, None),
    {
        let key = kdf(key_seed, None, None);
        UmbralDEM { key }
    }

    /// Seals `data` under a fresh nonce, binding `authenticated_data`.
    pub fn encrypt(&self, data: &[u8], authenticated_data: &[u8]) -> (r: Ciphertext)
        requires
            data@.len() < 0x4000_0000,
        ensures
            r@.nonce.len() == 12,
            r@.data == chacha20poly1305_seal(self@, r@.nonce, authenticated_data@, data@),
            r@.data.len() == data@.len() + 16,
            chacha20poly1305_open(self@, r@.nonce, authenticated_data@, r@.data) == Some(data@),
    {
        proof {
            use_type_invariant(self);
        }
        let nonce = random_nonce();
        let enc = chacha_seal(self.key.as_slice(), nonce.as_slice(), authenticated_data, data);
        Ciphertext { data: enc, nonce }
    }

    /// Opens a ciphertext; `None` exactly on a tag mismatch.
    pub fn decrypt(&self, ciphertext: &Ciphertext, authenticated_data: &[u8]) -> (r: Option<
        Vec<u8>,
    >)
        ensures
            match r {
                Some(m) => chacha20poly1305_open(self@, ciphertext@.nonce, authenticated_data@,
                    ciphertext@.data) == Some(m@),
                None => chacha20poly1305_open(self@, ciphertext@.nonce, authenticated_data@,
                    ciphertext@.data) is None,
            },
    {
        proof {
            use_type_invariant(self);
            use_type_invariant(ciphertext);
        }
        chacha_open(
            self.key.as_slice(),
            ciphertext.nonce.as_slice(),
            authenticated_data,
            ciphertext.data.as_slice(),
        )
    }

    /// Seals the buffer in place and appends the fresh nonce to it.
    pub fn encrypt_in_place(&self, buffer: &mut Vec<u8>, authenticated_data: &[u8]) -> (r: Option<
        (),
    >)
        requires
            old(buffer)@.len() < 0x4000_0000,
        ensures
            r is Some,
            final(buffer)@.len() == old(buffer)@.len() + 28,
            exists|n: Seq<u8>|
                n.len() == 12 && final(buffer)@ == #[trigger] chacha20poly1305_seal(self@, n,
                    authenticated_data@, old(buffer)@) + n && chacha20poly1305_open(self@, n,
                    authenticated_data@, final(buffer)@.subrange(0, final(buffer)@.len() - 12))
                    == Some(old(buffer)@),
    {
        proof {
            use_type_invariant(self);
        }
        let nonce = random_nonce();
        let mut enc = chacha_seal(
            self.key.as_slice(),
            nonce.as_slice(),
            authenticated_data,
            buffer.as_slice(),
        );
        let ghost n = nonce@;
        let ghost sealed = enc@;
        enc.extend_from_slice(nonce.as_slice());
        *buffer = enc;
        proof {
            assert(buffer@.subrange(0, buffer@.len() - 12) =~= sealed);
        }
        Some(())
    }

    /// Splits the nonce off the end of the buffer and opens the rest in
    /// place; on a tag mismatch the buffer is left as it was.
    pub fn decrypt_in_place(&self, buffer: &mut Vec<u8>, authenticated_data: &[u8]) -> (r: Option<
        (),
    >)
        ensures
            old(buffer)@.len() < 28 ==> r is None && final(buffer)@ == old(buffer)@,
            old(buffer)@.len() >= 28 ==> {
                let body = old(buffer)@.subrange(0, old(buffer)@.len() - 12);
                let n = old(buffer)@.subrange(old(buffer)@.len() - 12, old(buffer)@.len() as int);
                match chacha20poly1305_open(self@, n, authenticated_data@, body) {
                    Some(m) => r is Some && final(buffer)@ == m,
                    None => r is None && final(buffer)@ == old(buffer)@,
                }
            },
    {
        proof {
            use_type_invariant(self);
        }
        if buffer.len() < 28 {
            return None;
        }
        let split: usize = buffer.len() - 12;
        let mut nonce = buffer.split_off(split);
        proof {
            assert(buffer@ =~= old(buffer)@.subrange(0, old(buffer)@.len() - 12));
            assert(nonce@ =~= old(buffer)@.subrange(old(buffer)@.len() - 12,
                old(buffer)@.len() as int));
        }
        match chacha_open(
            self.key.as_slice(),
            nonce.as_slice(),
            authenticated_data,
            buffer.as_slice(),
        ) {
            Some(m) => {
                *buffer = m;
                Some(())
            },
            None => {
                buffer.append(&mut nonce);
                proof {
                    assert(buffer@ =~= old(buffer)@);
                }
                None
            },
        }
    }
}

} // verus!
