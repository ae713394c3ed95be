use vstd::prelude::*;
use vstd::string::StringSliceAdditionalSpecFns;
use base64::Engine;

verus! {

/// The encryption primitive rejected its inputs.
#[derive(Clone, Copy, Debug, PartialEq, Eq, Structural)]
pub struct CryptoError;

/// The ciphertext that AES-256-CBC with PKCS padding produces for the given
/// key, initialization vector and plaintext. It depends on its arguments
/// alone.
pub uninterp spec fn aes256_cbc_enc(key: Seq<u8>, iv: Seq<u8>, data: Seq<u8>) -> Seq<u8>;

/// The base64 rendering of the given bytes under the standard alphabet with
/// padding. It depends on its argument alone.
pub uninterp spec fn base64_of(data: Seq<u8>) -> Seq<char>;

/// The fixed 32-byte symmetric key, shared by every request.
pub open spec fn spec_key() -> Seq<u8> {
    "AMINHAKEYTEM32NYTES1234567891234".spec_bytes()
}

/// The fixed 16-byte initialization vector, shared by every request.
pub open spec fn spec_iv() -> Seq<u8> {
    "7061737323313233".spec_bytes()
}

/// The transport token for a plaintext: its AES-256-CBC ciphertext under the
/// fixed key and initialization vector, base64-encoded.
pub open spec fn spec_envelope(p: Seq<u8>) -> Seq<char> {
    base64_of(aes256_cbc_enc(spec_key(), spec_iv(), p))
}

/// The longest input the AES calls accept: their C interface takes the
/// length as a 32-bit signed int, and encryption may add one 16-byte block.
pub const AES_LEN_LIMIT: usize = 0x7fff_ffff - 16;

/// Relies on openssl::symm::encrypt with Cipher::aes_256_cbc: one-go
/// AES-256-CBC encryption with PKCS padding enabled. With a 32-byte key and
/// a 16-byte iv the call cannot fail; the ciphertext is a function of key,
/// iv and data alone and fills whole 16-byte blocks. The length bound keeps
/// the input inside the C interface's 32-bit length cast, which panics
/// beyond it.
#[verifier::external_body]
fn aes_encrypt(key: &[u8], iv: &[u8], data: &[u8]) -> (r: Result<Vec<u8>, CryptoError>)
    requires
        key@.len() == 32,
        iv@.len() == 16,
        data@.len() < AES_LEN_LIMIT,
    ensures
        r is Ok,
        r matches Ok(c) ==> c@ == aes256_cbc_enc(key@, iv@, data@),
        r matches Ok(c) ==> c@.len() == 16 * (data@.len() / 16 + 1),
{
    match openssl::symm::encrypt(openssl::symm::Cipher::aes_256_cbc(), key, Some(iv), data) {
        Ok(c) => Ok(c),
        Err(_) => Err(CryptoError),
    }
}

/// Relies on openssl::symm::decrypt with Cipher::aes_256_cbc: it inverts
/// openssl::symm::encrypt under the same cipher, key and iv. The length
/// bound keeps the input inside the C interface's 32-bit length cast, which
/// panics beyond it.
#[verifier::external_body]
fn aes_decrypt(key: &[u8], iv: &[u8], data: &[u8]) -> (r: Result<Vec<u8>, CryptoError>)
    requires
        key@.len() == 32,
        iv@.len() == 16,
        data@.len() < AES_LEN_LIMIT,
    ensures
        r matches Ok(v) ==> (forall|p: Seq<u8>|
            data@ == aes256_cbc_enc(key@, iv@, p) ==> v@ == p),
        r is Err ==> (forall|p: Seq<u8>| data@ != aes256_cbc_enc(key@, iv@, p)),
{
    match openssl::symm::decrypt(openssl::symm::Cipher::aes_256_cbc(), key, Some(iv), data) {
        Ok(v) => Ok(v),
        Err(_) => Err(CryptoError),
    }
}

/// Relies on the base64 crate's STANDARD engine: encoding under the standard
/// alphabet with padding; the output is a function of the input bytes alone,
/// four characters for every three bytes begun.
#[verifier::external_body]
fn b64_encode(data: &[u8]) -> (r: String)
    ensures
        r@ == base64_of(data@),
        r@.len() == 4 * ((data@.len() + 2) / 3),
{
    base64::engine::general_purpose::STANDARD.encode(data)
}

/// Relies on the base64 crate's STANDARD engine: decoding inverts encoding
/// under the same engine, and yields three bytes for every four input
/// characters, so never more bytes than characters.
#[verifier::external_body]
fn b64_decode(s: &str) -> (r: Option<Vec<u8>>)
    ensures
        r matches Some(v) ==> (forall|b: Seq<u8>| s@ == base64_of(b) ==> v@ == b),
        r matches Some(v) ==> v@.len() <= s@.len(),
        r is None ==> (forall|b: Seq<u8>| s@ != base64_of(b)),
{
    match base64::engine::general_purpose::STANDARD.decode(s) {
        Ok(v) => Some(v),
        Err(_) => None,
    }
}

/// The fixed key as bytes.
fn key_bytes() -> (r: Vec<u8>)
    ensures
        r@ == spec_key(),
{
    "AMINHAKEYTEM32NYTES1234567891234".as_bytes_vec()
}

/// The fixed initialization vector as bytes.
fn iv_bytes() -> (r: Vec<u8>)
    ensures
        r@ == spec_iv(),
{
    "7061737323313233".as_bytes_vec()
}

/// Encrypts a parameter string into its base64 transport token under the
/// fixed key and initialization vector. The token is a function of the
/// plaintext alone, so equal inputs always yield equal tokens, and on every
/// plaintext inside the machine's length limit a token is produced: an error
/// comes only for inputs too long for the primitive's length cast.
pub fn encrypt_envelope(p: &str) -> (r: Result<String, CryptoError>)
    ensures
        r matches Ok(e) ==> e@ == spec_envelope(p.spec_bytes()) && e@.len() == 4 * ((16 * (
        p.spec_bytes().len() / 16 + 1) + 2) / 3),
        p.spec_bytes().len() < AES_LEN_LIMIT ==> r is Ok,
{
    let data = p.as_bytes();
    if data.len() >= AES_LEN_LIMIT {
        return Err(CryptoError);
    }
    let key = key_bytes();
    let iv = iv_bytes();
    proof {
        reveal_strlit("AMINHAKEYTEM32NYTES1234567891234");
        reveal_strlit("7061737323313233");
        assert(spec_key().len() == 32) by {
            vstd::string::is_ascii_spec_bytes("AMINHAKEYTEM32NYTES1234567891234");
        }
        assert(spec_iv().len() == 16) by {
            vstd::string::is_ascii_spec_bytes("7061737323313233");
        }
    }
    match aes_encrypt(key.as_slice(), iv.as_slice(), data) {
        Ok(c) => Ok(b64_encode(c.as_slice())),
        Err(e) => Err(e),
    }
}

/// Opens a transport token: base64-decodes it and decrypts the result under
/// the fixed key and initialization vector. Whenever a token inside the
/// machine's length limit is the envelope of some plaintext, that plaintext
/// comes back byte for byte.
pub fn open_envelope(e: &str) -> (r: Option<Vec<u8>>)
    ensures
        e@.len() < AES_LEN_LIMIT ==> (forall|p: Seq<u8>|
            e@ == spec_envelope(p) ==> (r matches Some(v) && v@ == p)),
{
    let key = key_bytes();
    let iv = iv_bytes();
    proof {
        reveal_strlit("AMINHAKEYTEM32NYTES1234567891234");
        reveal_strlit("7061737323313233");
        assert(spec_key().len() == 32) by {
            vstd::string::is_ascii_spec_bytes("AMINHAKEYTEM32NYTES1234567891234");
        }
        assert(spec_iv().len() == 16) by {
            vstd::string::is_ascii_spec_bytes("7061737323313233");
        }
    }
    match b64_decode(e) {
        Some(c) => {
            if c.len() >= AES_LEN_LIMIT {
                return None;
            }
            match aes_decrypt(key.as_slice(), iv.as_slice(), c.as_slice()) {
                Ok(v) => Some(v),
                Err(_) => None,
            }
        },
        None => None,
    }
}

} // verus!
