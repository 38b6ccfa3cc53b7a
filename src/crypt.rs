//! Password-based encryption of profile bytes: key and IV derivation and
//! AES-256 in CBC mode with PKCS#7 padding.

use vstd::prelude::*;
use crypto::buffer::{ReadBuffer, WriteBuffer};
use crypto::digest::Digest;
use crypto::symmetriccipher::SymmetricCipherError;
use vstd::utf8::encode_utf8;

verus! {

#[verifier::external_type_specification]
#[verifier::external_body]
pub struct ExSymmetricCipherError(SymmetricCipherError);

/// The lowercase hex text of the SHA-256 digest of `data`.
pub uninterp spec fn sha256_hex_of(data: Seq<u8>) -> Seq<char>;

/// `len` bytes of PBKDF2 with HMAC-SHA-256 over the password and salt.
pub uninterp spec fn pbkdf2_sha256_of(password: Seq<u8>, salt: Seq<u8>, rounds: u32, len: usize) -> Seq<u8>;

/// AES-256-CBC encryption of whole 16-byte blocks.
pub uninterp spec fn aes256_cbc_encrypt_of(key: Seq<u8>, iv: Seq<u8>, blocks: Seq<u8>) -> Seq<u8>;

/// AES-256-CBC decryption of whole 16-byte blocks.
pub uninterp spec fn aes256_cbc_decrypt_of(key: Seq<u8>, iv: Seq<u8>, data: Seq<u8>) -> Seq<u8>;

/// PKCS#7 padding to whole 16-byte blocks: 1 to 16 bytes, each holding
/// their count.
pub open spec fn pkcs7_pad(data: Seq<u8>) -> Seq<u8> {
    let n = (16 - data.len() % 16) as nat;
    data + Seq::new(n, |i: int| n as u8)
}

/// The data under PKCS#7 padding; `None` when the padding is not valid.
pub open spec fn pkcs7_unpad(data: Seq<u8>) -> Option<Seq<u8>> {
    if data.len() == 0 {
        None
    } else {
        let n = data.last() as int;
        if 1 <= n <= 16 && n <= data.len() && (forall|i: int|
            data.len() - n <= i < data.len() ==> #[trigger] data[i] == n as u8) {
            Some(data.take(data.len() - n))
        } else {
            None
        }
    }
}

/// Removing the padding gives back the padded data.
pub proof fn lemma_unpad_pad(data: Seq<u8>)
    ensures
        pkcs7_unpad(pkcs7_pad(data)) == Some(data),
        pkcs7_pad(data).len() % 16 == 0,
{
    let n = (16 - data.len() % 16) as nat;
    let p = pkcs7_pad(data);
    assert(p.len() == data.len() + n);
    assert(p.last() == n as u8);
    assert(p.take(p.len() - n) =~= data);
    assert forall|i: int| p.len() - n <= i < p.len() implies #[trigger] p[i] == n as u8 by {
        assert(p[i] == Seq::new(n, |j: int| n as u8)[i - data.len()]);
    }
}

/// Relies on `crypto::sha2::Sha256` (`input`, then `result_str`): the hex
/// digest of the bytes.
#[verifier::external_body]
fn sha256_hex(data: &[u8]) -> (r: String)
    ensures
        r@ == sha256_hex_of(data@),
{
    let mut sha = crypto::sha2::Sha256::new();
    sha.input(data);
    sha.result_str()
}

/// Relies on `crypto::pbkdf2::pbkdf2` with `crypto::hmac::Hmac` over
/// `crypto::sha2::Sha256`: fills `len` bytes. `pbkdf2` asserts that the
/// round count is positive.
#[verifier::external_body]
fn pbkdf2_sha256(password: &[u8], salt: &[u8], rounds: u32, len: usize) -> (r: Vec<u8>)
    requires
        rounds > 0,
    ensures
        r@ == pbkdf2_sha256_of(password@, salt@, rounds, len),
        r@.len() == len,
{
    let mut mac = crypto::hmac::Hmac::new(crypto::sha2::Sha256::new(), password);
    let mut out = vec![0u8; len];
    crypto::pbkdf2::pbkdf2(&mut mac, salt, rounds, &mut out);
    out
}

/// Relies on `crypto::aes::cbc_encryptor` (256-bit key, PKCS padding) and
/// `Encryptor::encrypt`, run until the input is consumed: CBC encryption of
/// the PKCS#7-padded data, one output block per padded block. The key must be
/// 32 bytes and the IV 16. PKCS padding always completes the last block, so
/// encryption does not fail. Empty data never reaches the padding step and
/// gives empty output.
#[verifier::external_body]
fn aes_encrypt(data: &[u8], key: &[u8], iv: &[u8]) -> (r: Result<Vec<u8>, SymmetricCipherError>)
    requires
        key@.len() == 32,
        iv@.len() == 16,
    ensures
        r is Ok,
        r is Ok && data@.len() == 0 ==> r->Ok_0@.len() == 0,
        r is Ok && data@.len() > 0 ==> r->Ok_0@ == aes256_cbc_encrypt_of(
            key@,
            iv@,
            pkcs7_pad(data@),
        ),
        r is Ok && data@.len() > 0 ==> r->Ok_0@.len() == pkcs7_pad(data@).len(),
{
    let mut enc = crypto::aes::cbc_encryptor(
        crypto::aes::KeySize::KeySize256, key, iv, crypto::blockmodes::PkcsPadding);
    let mut out = Vec::new();
    let mut read = crypto::buffer::RefReadBuffer::new(data);
    let mut buf = [0u8; 4096];
    let mut write = crypto::buffer::RefWriteBuffer::new(&mut buf);
    while let crypto::buffer::BufferResult::BufferOverflow = enc.encrypt(&mut read, &mut write, true)? {
        out.extend_from_slice(write.take_read_buffer().take_remaining());
    }
    out.extend_from_slice(write.take_read_buffer().take_remaining());
    Ok(out)
}

/// Relies on `crypto::aes::cbc_decryptor` (256-bit key, no padding) and
/// `Decryptor::decrypt`, run until the input is consumed: CBC decryption of
/// whole blocks, which fails only when the length is not a multiple of 16.
/// Under the same key and IV it inverts CBC encryption of whole blocks.
#[verifier::external_body]
fn aes_decrypt(data: &[u8], key: &[u8], iv: &[u8]) -> (r: Result<Vec<u8>, SymmetricCipherError>)
    requires
        key@.len() == 32,
        iv@.len() == 16,
    ensures
        r is Ok <==> data@.len() % 16 == 0,
        r is Ok ==> r->Ok_0@ == aes256_cbc_decrypt_of(key@, iv@, data@),
        forall|blocks: Seq<u8>|
            blocks.len() % 16 == 0 && #[trigger] aes256_cbc_encrypt_of(key@, iv@, blocks) == data@
                ==> r is Ok && r->Ok_0@ == blocks,
{
    let mut dec = crypto::aes::cbc_decryptor(
        crypto::aes::KeySize::KeySize256, key, iv, crypto::blockmodes::NoPadding);
    let mut out = Vec::new();
    let mut read = crypto::buffer::RefReadBuffer::new(data);
    let mut buf = [0u8; 4096];
    let mut write = crypto::buffer::RefWriteBuffer::new(&mut buf);
    while let crypto::buffer::BufferResult::BufferOverflow = dec.decrypt(&mut read, &mut write, true)? {
        out.extend_from_slice(write.take_read_buffer().take_remaining());
    }
    out.extend_from_slice(write.take_read_buffer().take_remaining());
    Ok(out)
}

/// PBKDF2 rounds of the key derivation.
pub const KEY_ROUNDS: u32 = 2056;

/// The derived key material of a password: 48 bytes of PBKDF2-HMAC-SHA-256
/// over the password, salted with the hex SHA-256 digest of the password.
pub open spec fn key_material(password: Seq<char>) -> Seq<u8> {
    let p = encode_utf8(password);
    pbkdf2_sha256_of(p, encode_utf8(sha256_hex_of(p)), KEY_ROUNDS, 48)
}

/// The key derived from a password: the first 32 bytes of its material.
pub open spec fn derived_key(password: Seq<char>) -> Seq<u8> {
    key_material(password).take(32)
}

/// The IV derived from a password: the last 16 bytes of its material.
pub open spec fn derived_iv(password: Seq<char>) -> Seq<u8> {
    key_material(password).subrange(32, 48)
}

/// Copies `v[from..to]`.
fn copy_range(v: &Vec<u8>, from: usize, to: usize) -> (r: Vec<u8>)
    requires
        from <= to <= v@.len(),
    ensures
        r@ == v@.subrange(from as int, to as int),
{
    let mut out: Vec<u8> = Vec::new();
    let mut k: usize = from;
    while k < to
        invariant
            from <= k <= to,
            to <= v@.len(),
            out@ == v@.subrange(from as int, k as int),
        decreases to - k,
    {
        out.push(v[k]);
        k = k + 1;
        assert(out@ =~= v@.subrange(from as int, k as int));
    }
    out
}

/// The key (32 bytes) and IV (16 bytes) derived from a password.
pub fn password_to_key(password: &str) -> (r: (Vec<u8>, Vec<u8>))
    ensures
        r.0@ == derived_key(password@),
        r.1@ == derived_iv(password@),
        r.0@.len() == 32,
        r.1@.len() == 16,
{
    let p = password.as_bytes();
    let salt = sha256_hex(p);
    let material = pbkdf2_sha256(p, salt.as_str().as_bytes(), KEY_ROUNDS, 48);
    (copy_range(&material, 0, 32), copy_range(&material, 32, 48))
}

/// The encryption of `data` under a password.
/// Empty data stays empty.
pub open spec fn encrypted_with(password: Seq<char>, data: Seq<u8>) -> Seq<u8> {
    if data.len() == 0 {
        seq![]
    } else {
        aes256_cbc_encrypt_of(derived_key(password), derived_iv(password), pkcs7_pad(data))
    }
}

/// The decryption of `data` under a password: empty for empty data; `None`
/// when its length is not whole blocks or its padding is not valid.
pub open spec fn decrypted_with(password: Seq<char>, data: Seq<u8>) -> Option<Seq<u8>> {
    if data.len() == 0 {
        Some(seq![])
    } else if data.len() % 16 == 0 {
        pkcs7_unpad(aes256_cbc_decrypt_of(derived_key(password), derived_iv(password), data))
    } else {
        None
    }
}

/// Encrypts `data` under the key and IV derived from the password.
pub fn encrypt_with_password(data: &[u8], password: &str) -> (r: Vec<u8>)
    ensures
        r@ == encrypted_with(password@, data@),
        r@.len() == 0 <==> data@.len() == 0,
{
    let (key, iv) = password_to_key(password);
    match aes_encrypt(data, key.as_slice(), iv.as_slice()) {
        Ok(c) => {
            if data.len() == 0 {
                assert(c@ =~= encrypted_with(password@, data@));
            }
            c
        },
        Err(_) => Vec::new(),
    }
}

/// The data under PKCS#7 padding, or `None` when the padding is not valid:
/// empty data, a last byte outside 1..=16 or longer than the data, or a
/// padding byte that differs from the last. This is deliberately stricter
/// than rust-crypto's own PKCS strip, which accepts a last byte of 0 and
/// panics on a last block of sixteen equal bytes above 16.
pub fn pkcs7_strip(data: Vec<u8>) -> (r: Option<Vec<u8>>)
    ensures
        r is Some <==> pkcs7_unpad(data@) is Some,
        r is Some ==> pkcs7_unpad(data@) == Some(r->0@),
{
    let len = data.len();
    if len == 0 {
        return None;
    }
    let n = data[len - 1] as usize;
    if n < 1 || n > 16 || n > len {
        return None;
    }
    let mut k: usize = len - n;
    while k < len
        invariant
            len == data@.len(),
            1 <= n <= 16,
            n <= len,
            n == data@.last() as int,
            len - n <= k <= len,
            forall|i: int| len - n <= i < k ==> #[trigger] data@[i] == n as u8,
        decreases len - k,
    {
        if data[k] as usize != n {
            return None;
        }
        k = k + 1;
    }
    let mut out = data;
    out.truncate(len - n);
    assert(out@ =~= data@.take(len - n));
    Some(out)
}

/// Decrypts `data` under the key and IV derived from the password: empty for
/// empty data; `None` when its length is not whole blocks or its padding is
/// not valid (checked by `pkcs7_strip`). The encryption of some data under
/// the same password gives that data back (`encrypt_with_password` keeps
/// non-empty data non-empty).
pub fn decrypt_with_password(data: &[u8], password: &str) -> (r: Option<Vec<u8>>)
    ensures
        r is Some <==> decrypted_with(password@, data@) is Some,
        r is Some ==> decrypted_with(password@, data@) == Some(r->0@),
        forall|plain: Seq<u8>|
            #[trigger] encrypted_with(password@, plain) == data@ && (plain.len() == 0 <==> data@.len()
                == 0) ==> r is Some && r->0@ == plain,
{
    let (key, iv) = password_to_key(password);
    proof {
        assert forall|plain: Seq<u8>| #[trigger] encrypted_with(password@, plain) == data@ implies
            pkcs7_pad(plain).len() % 16 == 0 && pkcs7_unpad(pkcs7_pad(plain)) == Some(plain) by {
            lemma_unpad_pad(plain);
        }
    }
    if data.len() == 0 {
        let empty: Vec<u8> = Vec::new();
        assert(empty@ =~= seq![]);
        return Some(empty);
    }
    match aes_decrypt(data, key.as_slice(), iv.as_slice()) {
        Ok(p) => pkcs7_strip(p),
        Err(_) => None,
    }
}

} // verus!
