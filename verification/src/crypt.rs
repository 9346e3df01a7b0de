use vstd::prelude::*;
use vstd::string::StrSliceExecFns;
use vstd::utf8::encode_utf8;
use vstd::utf8::encode_utf8_decode_utf8;
use vstd::utf8::encode_utf8_valid_utf8;
use vstd::utf8::valid_utf8;

use chacha20poly1305::aead::Aead;
use chacha20poly1305::ChaCha20Poly1305;
use chacha20poly1305::KeyInit;
use chacha20poly1305::Nonce;

verus! {

/// The byte length of a cipher key.
pub const KEY_LEN: usize = 32;

/// The byte length of the fresh nonce written at the head of every frame.
pub const NONCE_LEN: usize = 12;

/// The byte length of the authentication tag at the tail of every frame.
pub const TAG_LEN: usize = 16;

/// The largest plaintext this library will hand to the cipher. Far below the
/// cipher's own limit, so encryption of an admitted plaintext cannot fail.
pub const MAX_PLAIN_LEN: usize = 0x1000_0000;

/// What ChaCha20-Poly1305 decryption yields for a key, nonce and ciphertext:
/// the plaintext when the tag authenticates, nothing otherwise. Decryption is
/// a function of these three arguments alone.
pub uninterp spec fn aead_plaintext(key: Seq<u8>, nonce: Seq<u8>, ct: Seq<u8>) -> Option<Seq<u8>>;

/// Relies on chacha20poly1305's `Aead::encrypt` (ChaCha20-Poly1305): it
/// returns ciphertext-plus-tag from which `Aead::decrypt`, under the same key
/// and nonce, returns exactly the plaintext again; it only fails on
/// plaintexts far longer than the admitted ones.
#[verifier::external_body]
fn aead_encrypt(key: &[u8], nonce: &[u8], plain: &[u8]) -> (r: Vec<u8>)
    requires
        key@.len() == KEY_LEN,
        nonce@.len() == NONCE_LEN,
        plain@.len() <= MAX_PLAIN_LEN,
    ensures
        r@.len() == plain@.len() + TAG_LEN,
        aead_plaintext(key@, nonce@, r@) == Some(plain@),
{
    let cipher = ChaCha20Poly1305::new_from_slice(key).expect("key length checked");
    let nonce = Nonce::try_from(nonce).expect("nonce length checked");
    cipher.encrypt(&nonce, plain).expect("plaintext length checked")
}

/// Relies on chacha20poly1305's `Aead::decrypt` (ChaCha20-Poly1305): for a
/// given key, nonce and ciphertext it deterministically returns either the
/// authenticated plaintext or an error.
#[verifier::external_body]
fn aead_decrypt(key: &[u8], nonce: &[u8], ct: &[u8]) -> (r: Option<Vec<u8>>)
    requires
        key@.len() == KEY_LEN,
        nonce@.len() == NONCE_LEN,
    ensures
        match r {
            Some(p) => aead_plaintext(key@, nonce@, ct@) == Some(p@),
            None => aead_plaintext(key@, nonce@, ct@) is None,
        },
{
    let cipher = ChaCha20Poly1305::new_from_slice(key).expect("key length checked");
    let nonce = Nonce::try_from(nonce).expect("nonce length checked");
    cipher.decrypt(&nonce, ct).ok()
}

/// Relies on getrandom's `fill`: it fills the buffer with random bytes from
/// the operating system. Nothing is assumed about the bytes themselves; if
/// the system has no entropy source at all, the process aborts.
#[verifier::external_body]
pub fn random_bytes(n: usize) -> (r: Vec<u8>)
    ensures
        r@.len() == n,
{
    let mut buf = vec![0u8; n];
    getrandom::fill(&mut buf).expect("entropy source unavailable");
    buf
}

/// Relies on `String::from_utf8`: it returns the string whose UTF-8 encoding
/// is the given bytes, and fails exactly on invalid UTF-8.
#[verifier::external_body]
pub fn string_from_utf8(bytes: Vec<u8>) -> (r: Option<String>)
    ensures
        r matches Some(s) ==> encode_utf8(s@) == bytes@,
        r is None ==> !valid_utf8(bytes@),
        valid_utf8(bytes@) ==> r is Some,
{
    String::from_utf8(bytes).ok()
}

/// Copies `v[from..to]` into a fresh vector.
pub fn copy_range(v: &[u8], from: usize, to: usize) -> (r: Vec<u8>)
    requires
        from <= to <= v@.len(),
    ensures
        r@ == v@.subrange(from as int, to as int),
{
    let mut r: Vec<u8> = Vec::new();
    let mut i: usize = from;
    while i < to
        invariant
            from <= i <= to <= v@.len(),
            r@ == v@.subrange(from as int, i as int),
        decreases to - i,
    {
        r.push(v[i]);
        proof {
            assert(r@ =~= v@.subrange(from as int, i + 1 as int));
        }
        i = i + 1;
    }
    r
}

/// The byte run `data` is a well-formed frame `nonce ‖ ciphertext ‖ tag`
/// sealing `plain` under `key`.
pub open spec fn sealed_bytes_wf(key: Seq<u8>, data: Seq<u8>, plain: Seq<u8>) -> bool {
    &&& data.len() >= NONCE_LEN + TAG_LEN
    &&& aead_plaintext(
        key,
        data.subrange(0, NONCE_LEN as int),
        data.subrange(NONCE_LEN as int, data.len() as int),
    ) == Some(plain)
    &&& plain.len() <= MAX_PLAIN_LEN
}

/// Opens one frame of bytes, returning the plaintext it seals.
pub fn open_sealed(key: &[u8], data: &[u8], Ghost(plain): Ghost<Seq<u8>>) -> (r: Vec<u8>)
    requires
        key@.len() == KEY_LEN,
        sealed_bytes_wf(key@, data@, plain),
    ensures
        r@ == plain,
{
    let nonce = copy_range(data, 0, NONCE_LEN);
    let ct = copy_range(data, NONCE_LEN, data.len());
    match aead_decrypt(key, nonce.as_slice(), ct.as_slice()) {
        Some(p) => p,
        None => vstd::pervasive::unreached(),
    }
}

/// A frame holding one encrypted byte run: `nonce ‖ ciphertext ‖ tag`, with
/// the plaintext it was sealed from kept as its ghost model.
pub struct Frame {
    pub data: Vec<u8>,
    pub plain: Ghost<Seq<u8>>,
}

impl Frame {
    /// The frame is a well-formed seal, under `key`, of its model plaintext.
    pub open spec fn wf(self, key: Seq<u8>) -> bool {
        sealed_bytes_wf(key, self.data@, self.plain@)
    }

    /// Seals a byte run under a fresh random nonce. Fails exactly when the
    /// plaintext is longer than the library's plaintext limit.
    pub fn seal(key: &[u8], plain: &[u8]) -> (r: Option<Frame>)
        requires
            key@.len() == KEY_LEN,
        ensures
            r matches Some(f) ==> f.wf(key@) && f.plain@ == plain@,
            r is None ==> plain@.len() > MAX_PLAIN_LEN,
    {
        if plain.len() > MAX_PLAIN_LEN {
            return None;
        }
        let mut data = random_bytes(NONCE_LEN);
        let ghost nonce = data@;
        let mut ct = aead_encrypt(key, data.as_slice(), plain);
        let ghost ct0 = ct@;
        data.append(&mut ct);
        proof {
            assert(data@.subrange(0, NONCE_LEN as int) =~= nonce);
            assert(data@.subrange(NONCE_LEN as int, data@.len() as int) =~= ct0);
        }
        Some(Frame { data, plain: Ghost(plain@) })
    }

    /// Opens the frame, returning the sealed plaintext.
    pub fn open(&self, key: &[u8]) -> (r: Vec<u8>)
        requires
            key@.len() == KEY_LEN,
            self.wf(key@),
        ensures
            r@ == self.plain@,
    {
        open_sealed(key, self.data.as_slice(), Ghost(self.plain@))
    }
}

/// A secret string, held only in sealed form, with the plaintext characters
/// as its ghost model.
pub struct SecretBox {
    pub frame: Frame,
    pub plain: Ghost<Seq<char>>,
}

impl SecretBox {
    /// The box is a well-formed seal, under `key`, of its model characters.
    pub open spec fn wf(self, key: Seq<u8>) -> bool {
        &&& self.frame.wf(key)
        &&& self.frame.plain@ == encode_utf8(self.plain@)
    }

    /// Seals a secret string. Fails exactly when the string's UTF-8 encoding
    /// is longer than the library's plaintext limit.
    pub fn seal_str(key: &[u8], value: &str) -> (r: Option<SecretBox>)
        requires
            key@.len() == KEY_LEN,
        ensures
            r matches Some(b) ==> b.wf(key@) && b.plain@ == value@,
            r is None ==> encode_utf8(value@).len() > MAX_PLAIN_LEN,
    {
        let bytes = value.as_bytes_vec();
        match Frame::seal(key, bytes.as_slice()) {
            Some(frame) => Some(SecretBox { frame, plain: Ghost(value@) }),
            None => None,
        }
    }

    /// Opens the box, returning the secret string.
    pub fn open_str(&self, key: &[u8]) -> (r: String)
        requires
            key@.len() == KEY_LEN,
            self.wf(key@),
        ensures
            r@ == self.plain@,
    {
        let bytes = self.frame.open(key);
        proof {
            encode_utf8_valid_utf8(self.plain@);
        }
        match string_from_utf8(bytes) {
            Some(s) => {
                proof {
                    encode_utf8_decode_utf8(s@);
                    encode_utf8_decode_utf8(self.plain@);
                }
                s
            },
            None => vstd::pervasive::unreached(),
        }
    }
}

} // verus!
