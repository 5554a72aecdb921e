//! The portal's credential encoding:
//! `Base64(AES-128-CBC-ZeroPadding(UTF-8 text, fixed key, ASCII IV)) + IV`.
use vstd::prelude::*;
use vstd::slice::slice_subrange;
use vstd::string::StringExecFns;
use vstd::utf8::*;

use aes::Aes128;
use base64::engine::general_purpose::STANDARD;
use base64::Engine;
use cbc::cipher::block_padding::NoPadding;
use cbc::cipher::BlockDecryptMut;
use cbc::cipher::BlockEncryptMut;
use cbc::cipher::KeyIvInit;
use rand::Rng;

verus! {

broadcast use group_utf8_lib;

/// Block size of AES, in bytes.
pub const BLOCK_SIZE: usize = 16;

#[verifier::external_type_specification]
#[verifier::external_body]
pub struct ExDecodeError(base64::DecodeError);

#[verifier::external_type_specification]
#[verifier::external_body]
pub struct ExFromUtf8Error(std::string::FromUtf8Error);

/// Why a value could not be encoded or decoded.
#[derive(Debug)]
pub enum CryptoError {
    /// There is nothing to encrypt.
    EmptyInput,
    /// The value or the IV has the wrong shape.
    InvalidData(&'static str),
    /// The Base64 part does not decode.
    Base64(base64::DecodeError),
    /// The decrypted bytes are not UTF-8 text.
    Utf8(std::string::FromUtf8Error),
}

/// A `CryptoError` without the outside payloads.
pub enum CryptoFault {
    EmptyInput,
    InvalidData(Seq<char>),
    Base64,
    Utf8,
}

impl View for CryptoError {
    type V = CryptoFault;

    open spec fn view(&self) -> CryptoFault {
        match self {
            CryptoError::EmptyInput => CryptoFault::EmptyInput,
            CryptoError::InvalidData(m) => CryptoFault::InvalidData(m@),
            CryptoError::Base64(_) => CryptoFault::Base64,
            CryptoError::Utf8(_) => CryptoFault::Utf8,
        }
    }
}

/// The view of a text result.
pub open spec fn text_result(r: Result<String, CryptoError>) -> Result<Seq<char>, CryptoFault> {
    match r {
        Ok(s) => Ok(s@),
        Err(e) => Err(e@),
    }
}

/// The fixed AES key of the portal page, `root%$#@!1234567`.
pub open spec fn portal_key() -> Seq<u8> {
    seq![114u8, 111, 111, 116, 37, 36, 35, 64, 33, 49, 50, 51, 52, 53, 54, 55]
}

fn portal_key_bytes() -> (k: Vec<u8>)
    ensures
        k@ == portal_key(),
{
    let k: Vec<u8> = vec![114u8, 111, 111, 116, 37, 36, 35, 64, 33, 49, 50, 51, 52, 53, 54, 55];
    assert(k@ =~= portal_key());
    k
}

/// What AES-128 in CBC mode, without padding, makes of `plain`.
pub uninterp spec fn aes128_cbc_encryption(key: Seq<u8>, iv: Seq<u8>, plain: Seq<u8>) -> Seq<u8>;

/// What AES-128 in CBC mode, without padding, makes of `cipher` when decrypting.
pub uninterp spec fn aes128_cbc_decryption(key: Seq<u8>, iv: Seq<u8>, cipher: Seq<u8>) -> Seq<u8>;

/// What standard Base64 decoding (with canonical padding) makes of `text`;
/// `None` when `text` is not such an encoding.
pub uninterp spec fn base64_decoding(text: Seq<u8>) -> Option<Seq<u8>>;

/// `cbc::Encryptor::<Aes128>::new_from_slices` followed by
/// `encrypt_padded_mut::<NoPadding>` on a copy of `data`. The crates return
/// an error exactly when the key or the IV is not 16 bytes long or the
/// data is not a whole number of blocks; otherwise the ciphertext has the
/// length of the data, and CBC decryption under the same key and IV gives the
/// data back.
#[verifier::external_body]
fn aes128_cbc_encrypt(key: &[u8], iv: &[u8], data: &[u8]) -> (r: Option<Vec<u8>>)
    ensures
        r is Some <==> (key@.len() == 16 && iv@.len() == 16 && data@.len() % 16 == 0),
        r matches Some(c) ==> c@ == aes128_cbc_encryption(key@, iv@, data@),
        r matches Some(c) ==> c@.len() == data@.len(),
        r matches Some(c) ==> aes128_cbc_decryption(key@, iv@, c@) == data@,
{
    let mut buffer = data.to_vec();
    let len: usize = buffer.len();
    let encryptor = cbc::Encryptor::<Aes128>::new_from_slices(key, iv).ok()?;
    encryptor.encrypt_padded_mut::<NoPadding>(&mut buffer, len).ok().map(|c| c.to_vec())
}

/// `cbc::Decryptor::<Aes128>::new_from_slices` followed by
/// `decrypt_padded_mut::<NoPadding>` on a copy of `data`. The crates return
/// an error exactly when the key or the IV is not 16 bytes long or the
/// data is not a whole number of blocks; otherwise the plaintext has the
/// length of the data.
#[verifier::external_body]
fn aes128_cbc_decrypt(key: &[u8], iv: &[u8], data: &[u8]) -> (r: Option<Vec<u8>>)
    ensures
        r is Some <==> (key@.len() == 16 && iv@.len() == 16 && data@.len() % 16 == 0),
        r matches Some(p) ==> p@ == aes128_cbc_decryption(key@, iv@, data@),
        r matches Some(p) ==> p@.len() == data@.len(),
{
    let mut buffer = data.to_vec();
    let decryptor = cbc::Decryptor::<Aes128>::new_from_slices(key, iv).ok()?;
    decryptor.decrypt_padded_mut::<NoPadding>(&mut buffer).ok().map(|p| p.to_vec())
}

/// The Base64 symbol for the six-bit value `v`.
pub open spec fn base64_symbol(v: int) -> char {
    if v < 26 {
        (65 + v) as char
    } else if v < 52 {
        (71 + v) as char
    } else if v < 62 {
        (v - 4) as char
    } else if v == 62 {
        '+'
    } else {
        '/'
    }
}

/// Standard Base64 with `=` padding.
pub open spec fn base64_text(d: Seq<u8>) -> Seq<char>
    decreases d.len(),
{
    if d.len() == 0 {
        seq![]
    } else if d.len() == 1 {
        seq![base64_symbol((d[0] as int) / 4), base64_symbol(((d[0] as int) % 4) * 16), '=', '=']
    } else if d.len() == 2 {
        seq![
            base64_symbol((d[0] as int) / 4),
            base64_symbol(((d[0] as int) % 4) * 16 + (d[1] as int) / 16),
            base64_symbol(((d[1] as int) % 16) * 4),
            '=',
        ]
    } else {
        seq![
            base64_symbol((d[0] as int) / 4),
            base64_symbol(((d[0] as int) % 4) * 16 + (d[1] as int) / 16),
            base64_symbol(((d[1] as int) % 16) * 4 + (d[2] as int) / 64),
            base64_symbol((d[2] as int) % 64),
        ] + base64_text(d.subrange(3, d.len() as int))
    }
}

/// `base64::engine::general_purpose::STANDARD.encode`. Its output is standard
/// Base64 with padding, and the crate's decoder gives the input back.
#[verifier::external_body]
fn base64_encode(data: &[u8]) -> (r: String)
    requires
        data@.len() <= isize::MAX,
    ensures
        r@ == base64_text(data@),
        base64_decoding(encode_utf8(r@)) == Some(data@),
{
    STANDARD.encode(data)
}

/// `base64::engine::general_purpose::STANDARD.decode`.
#[verifier::external_body]
fn base64_decode(text: &[u8]) -> (r: Result<Vec<u8>, base64::DecodeError>)
    ensures
        r is Ok <==> base64_decoding(text@) is Some,
        r matches Ok(d) ==> base64_decoding(text@) == Some(d@),
{
    STANDARD.decode(text)
}

/// `String::from_utf8`.
#[verifier::external_body]
fn string_from_utf8(bytes: Vec<u8>) -> (r: Result<String, std::string::FromUtf8Error>)
    ensures
        r is Ok <==> valid_utf8(bytes@),
        r matches Ok(s) ==> s@ == decode_utf8(bytes@),
{
    String::from_utf8(bytes)
}

/// `rand::thread_rng().sample(Alphanumeric)`: a random byte among
/// `A-Z`, `a-z` and `0-9`.
#[verifier::external_body]
fn random_alphanumeric() -> (b: u8)
    ensures
        is_alphanumeric(b as char),
{
    rand::thread_rng().sample(rand::distributions::Alphanumeric)
}

/// An ASCII letter or digit.
pub open spec fn is_alphanumeric(c: char) -> bool {
    ('0' <= c <= '9') || ('A' <= c <= 'Z') || ('a' <= c <= 'z')
}

/// A valid IV: sixteen ASCII characters.
pub open spec fn is_valid_iv(iv: Seq<char>) -> bool {
    encode_utf8(iv).len() == BLOCK_SIZE && is_ascii_chars(iv)
}

/// The number of zero bytes that fill `len` bytes up to whole blocks.
pub open spec fn padding_len(len: nat) -> nat {
    ((16 - (len as int) % 16) % 16) as nat
}

/// `bytes` followed by zero bytes up to a whole number of blocks (CryptoJS
/// ZeroPadding: no extra block when the input is already block aligned).
pub open spec fn zero_padded(bytes: Seq<u8>) -> Seq<u8> {
    bytes + Seq::new(padding_len(bytes.len()), |i: int| 0u8)
}

/// `bytes` without its trailing zero bytes.
pub open spec fn without_trailing_zeros(bytes: Seq<u8>) -> Seq<u8>
    decreases bytes.len(),
{
    if bytes.len() > 0 && bytes.last() == 0 {
        without_trailing_zeros(bytes.drop_last())
    } else {
        bytes
    }
}

/// The encoded form of `text` under the IV `iv`.
pub open spec fn encryption_with_iv(text: Seq<char>, iv: Seq<char>) -> Result<Seq<char>, CryptoFault> {
    if text.len() == 0 {
        Err(CryptoFault::EmptyInput)
    } else if !is_valid_iv(iv) {
        Err(CryptoFault::InvalidData("IV 必须是 16 字节 ASCII 文本"@))
    } else {
        Ok(
            base64_text(aes128_cbc_encryption(portal_key(), encode_utf8(iv), zero_padded(encode_utf8(text))))
                + iv,
        )
    }
}

/// The text that decrypted bytes hold: trailing zero bytes dropped, the rest
/// read as UTF-8.
pub open spec fn plaintext_text(plain: Seq<u8>) -> Result<Seq<char>, CryptoFault> {
    let useful = without_trailing_zeros(plain);
    if valid_utf8(useful) {
        Ok(decode_utf8(useful))
    } else {
        Err(CryptoFault::Utf8)
    }
}

/// The text that a Base64-decoded ciphertext holds under the IV bytes `iv`.
pub open spec fn ciphertext_text(cipher: Seq<u8>, iv: Seq<u8>) -> Result<Seq<char>, CryptoFault> {
    if cipher.len() == 0 || cipher.len() % (BLOCK_SIZE as nat) != 0 {
        Err(CryptoFault::InvalidData("AES 密文长度不是 16 的倍数"@))
    } else {
        plaintext_text(aes128_cbc_decryption(portal_key(), iv, cipher))
    }
}

/// The text that an encoded value holds.
pub open spec fn decryption(value: Seq<char>) -> Result<Seq<char>, CryptoFault> {
    let bytes = encode_utf8(value);
    if bytes.len() <= BLOCK_SIZE || !is_ascii_chars(value) {
        Err(CryptoFault::InvalidData("密文过短或包含非 ASCII 字符"@))
    } else {
        let split = bytes.len() - BLOCK_SIZE;
        match base64_decoding(bytes.subrange(0, split)) {
            None => Err(CryptoFault::Base64),
            Some(cipher) => ciphertext_text(cipher, bytes.subrange(split, bytes.len() as int)),
        }
    }
}

/// `bytes` followed by zero bytes up to a whole number of blocks.
pub fn zero_pad(bytes: &[u8]) -> (r: Vec<u8>)
    ensures
        r@ == zero_padded(bytes@),
        r@.len() % (BLOCK_SIZE as nat) == 0,
{
    let mut r: Vec<u8> = Vec::new();
    let n: usize = bytes.len();
    let mut i: usize = 0;
    while i < n
        invariant
            i <= n == bytes@.len(),
            r@ == bytes@.subrange(0, i as int),
        decreases n - i,
    {
        r.push(bytes[i]);
        assert(r@ =~= bytes@.subrange(0, i + 1));
        i = i + 1;
    }
    let pad: usize = (BLOCK_SIZE - n % BLOCK_SIZE) % BLOCK_SIZE;
    let mut k: usize = 0;
    while k < pad
        invariant
            k <= pad == padding_len(n as nat),
            n == bytes@.len(),
            r@ == bytes@ + Seq::new(k as nat, |j: int| 0u8),
        decreases pad - k,
    {
        r.push(0u8);
        assert(r@ =~= bytes@ + Seq::new((k + 1) as nat, |j: int| 0u8));
        k = k + 1;
    }
    assert(r@.len() % (BLOCK_SIZE as nat) == 0) by (nonlinear_arith)
        requires
            r@.len() == n + pad,
            pad == (16 - n % 16) % 16,
    ;
    r
}

/// `bytes` without its trailing zero bytes, read as UTF-8 text.
pub fn decode_plaintext(bytes: Vec<u8>) -> (r: Result<String, CryptoError>)
    ensures
        text_result(r) == plaintext_text(bytes@),
{
    let mut useful = bytes;
    while useful.len() > 0 && useful[useful.len() - 1] == 0
        invariant
            without_trailing_zeros(useful@) == without_trailing_zeros(bytes@),
        decreases useful@.len(),
    {
        useful.pop();
    }
    match string_from_utf8(useful) {
        Ok(s) => Ok(s),
        Err(e) => Err(CryptoError::Utf8(e)),
    }
}


proof fn lemma_encode_utf8_concat(a: Seq<char>, b: Seq<char>)
    ensures
        encode_utf8(a + b) == encode_utf8(a) + encode_utf8(b),
    decreases a.len(),
{
    if a.len() == 0 {
        assert(a + b =~= b);
        assert(encode_utf8(a) + encode_utf8(b) =~= encode_utf8(b));
    } else {
        assert((a + b).drop_first() =~= a.drop_first() + b);
        lemma_encode_utf8_concat(a.drop_first(), b);
        assert(encode_utf8(a + b) =~= encode_utf8(a) + encode_utf8(b));
    }
}

proof fn lemma_base64_text_ascii(d: Seq<u8>)
    ensures
        is_ascii_chars(base64_text(d)),
        d.len() > 0 ==> base64_text(d).len() > 0,
    decreases d.len(),
{
    if d.len() >= 3 {
        lemma_base64_text_ascii(d.subrange(3, d.len() as int));
    }
    let t = base64_text(d);
    assert forall|i: int| 0 <= i < t.len() implies '\0' <= #[trigger] t[i] <= '\u{7f}' by {
        if d.len() >= 3 && i >= 4 {
            assert(t[i] == base64_text(d.subrange(3, d.len() as int))[i - 4]);
        }
    }
}

proof fn lemma_strip_zero_padding(b: Seq<u8>, k: nat)
    ensures
        without_trailing_zeros(b + Seq::new(k, |i: int| 0u8)) == without_trailing_zeros(b),
    decreases k,
{
    if k == 0 {
        assert(b + Seq::new(k, |i: int| 0u8) =~= b);
    } else {
        let s = b + Seq::new(k, |i: int| 0u8);
        assert(s.drop_last() =~= b + Seq::new((k - 1) as nat, |i: int| 0u8));
        lemma_strip_zero_padding(b, (k - 1) as nat);
    }
}

proof fn lemma_last_byte_not_zero(text: Seq<char>)
    requires
        text.len() > 0,
        text.last() != '\0',
    ensures
        without_trailing_zeros(encode_utf8(text)) == encode_utf8(text),
{
    let init = text.drop_last();
    let c = text.last();
    assert(init + seq![c] =~= text);
    lemma_encode_utf8_concat(init, seq![c]);
    let one = seq![c];
    assert(one[0] == c);
    assert(one.drop_first() =~= Seq::<char>::empty());
    assert(encode_utf8(one.drop_first()) =~= Seq::<u8>::empty());
    assert(encode_utf8(one) =~= encode_scalar(c as u32));
    let v = c as u32;
    let e = encode_scalar(v);
    if v == 0 {
        char_u32_cast(c, v);
        char_u32_cast('\0', '\0' as u32);
        assert(('\0' as u32) == 0);
    }
    assert(v != 0);
    if has_width_1_encoding(v) {
        assert(leading_byte_width_1(v) != 0) by (bit_vector)
            requires
                v != 0 && v <= 0x7f,
        ;
    } else {
        assert(last_continuation_byte(v) != 0) by (bit_vector);
    }
    assert(e.last() != 0);
    assert(encode_utf8(text).last() == e.last());
}

/// The ciphertext of an encoded credential is AES-128-CBC under the fixed
/// key and exactly the IV bytes that are appended after it: for any
/// non-empty text and valid IV, the encoding is
/// `Base64(AES(key, IV, zero-padded text))` followed by the IV unchanged.
pub proof fn lemma_encoding_uses_appended_iv(text: Seq<char>, iv: Seq<char>)
    requires
        text.len() > 0,
        is_valid_iv(iv),
    ensures
        encryption_with_iv(text, iv) == Ok::<Seq<char>, CryptoFault>(
            base64_text(
                aes128_cbc_encryption(portal_key(), encode_utf8(iv), zero_padded(encode_utf8(text))),
            ) + iv,
        ),
        encode_utf8(iv).len() == BLOCK_SIZE,
{
}

/// Decoding uses the last sixteen bytes of the value, unchanged, as the CBC
/// IV: when the value is ASCII, longer than sixteen bytes, and its Base64
/// part decodes to whole blocks, its text is what AES-128-CBC decryption
/// under the fixed key and those sixteen bytes gives, without trailing zero
/// bytes, read as UTF-8.
pub proof fn lemma_decoding_uses_appended_iv(value: Seq<char>, cipher: Seq<u8>)
    requires
        is_ascii_chars(value),
        encode_utf8(value).len() > BLOCK_SIZE,
        base64_decoding(encode_utf8(value).subrange(0, encode_utf8(value).len() - BLOCK_SIZE))
            == Some(cipher),
        cipher.len() > 0,
        cipher.len() % (BLOCK_SIZE as nat) == 0,
    ensures
        decryption(value) == ({
            let bytes = encode_utf8(value);
            let plain = without_trailing_zeros(
                aes128_cbc_decryption(
                    portal_key(),
                    bytes.subrange(bytes.len() - BLOCK_SIZE, bytes.len() as int),
                    cipher,
                ),
            );
            if valid_utf8(plain) {
                Ok::<Seq<char>, CryptoFault>(decode_utf8(plain))
            } else {
                Err(CryptoFault::Utf8)
            }
        }),
{
}

/// The length of `len` bytes rounded up to whole blocks.
pub open spec fn padded_length(len: nat) -> nat {
    ((len + 15) / 16 * 16) as nat
}

/// Whether the Base64 part of an encoded value (all but its last sixteen
/// bytes) decodes to `len` bytes.
pub open spec fn ciphertext_decodes_to_length(value: Seq<char>, len: nat) -> bool {
    let bytes = encode_utf8(value);
    &&& bytes.len() > BLOCK_SIZE
    &&& base64_decoding(bytes.subrange(0, bytes.len() - BLOCK_SIZE)) matches Some(b)
    &&& b.len() == len
}

proof fn lemma_zero_padded_length(bytes: Seq<u8>)
    ensures
        zero_padded(bytes).len() == padded_length(bytes.len()),
{
    let n = bytes.len() as int;
    assert(n + (16 - n % 16) % 16 == (n + 15) / 16 * 16) by (nonlinear_arith)
        requires
            n >= 0,
    ;
}

/// `Base64(cipher)` followed by the IV.
pub fn frame_ciphertext(cipher: &[u8], iv: &str) -> (r: String)
    requires
        cipher@.len() <= isize::MAX,
    ensures
        r@ == base64_text(cipher@) + iv@,
        base64_decoding(encode_utf8(base64_text(cipher@))) == Some(cipher@),
{
    let encoded = base64_encode(cipher);
    encoded.concat(iv)
}

/// Encodes `text` with the given IV (sixteen ASCII characters).
pub fn encrypt_with_iv(text: &str, iv: &str) -> (r: Result<String, CryptoError>)
    requires
        encode_utf8(text@).len() + BLOCK_SIZE <= isize::MAX,
    ensures
        text_result(r) == encryption_with_iv(text@, iv@),
        r matches Ok(c) ==> (text@.last() != '\0' ==> decryption(c@) == Ok::<Seq<char>, CryptoFault>(text@)),
        r matches Ok(c) ==> ciphertext_decodes_to_length(c@, padded_length(encode_utf8(text@).len())),
        r matches Ok(c) ==> c@ == base64_text(
            aes128_cbc_encryption(portal_key(), encode_utf8(iv@), zero_padded(encode_utf8(text@))),
        ) + iv@,
{
    if text.is_empty() {
        return Err(CryptoError::EmptyInput);
    }
    let iv_bytes = iv.as_bytes();
    if iv_bytes.len() != BLOCK_SIZE || !iv.is_ascii() {
        return Err(CryptoError::InvalidData("IV 必须是 16 字节 ASCII 文本"));
    }
    let key = portal_key_bytes();
    let plain = text.as_bytes();
    let buffer = zero_pad(plain);
    match aes128_cbc_encrypt(key.as_slice(), iv_bytes, buffer.as_slice()) {
        None => Err(CryptoError::InvalidData("AES 加密失败")),
        Some(cipher) => {
            let framed = frame_ciphertext(cipher.as_slice(), iv);
            proof {
                let b64 = base64_text(cipher@);
                lemma_base64_text_ascii(cipher@);
                lemma_encode_utf8_concat(b64, iv@);
                let bytes = encode_utf8(framed@);
                let split = encode_utf8(b64).len();
                assert(bytes.subrange(0, split as int) =~= encode_utf8(b64));
                assert(bytes.subrange(split as int, bytes.len() as int) =~= encode_utf8(iv@));
                assert(is_ascii_chars(framed@));
                lemma_zero_padded_length(encode_utf8(text@));
                if text@.last() != '\0' {
                    lemma_last_byte_not_zero(text@);
                    lemma_strip_zero_padding(encode_utf8(text@), padding_len(encode_utf8(text@).len()));
                }
            }
            Ok(framed)
        },
    }
}

/// Encodes `text` with a fresh random IV of sixteen letters and digits.
pub fn encrypt(text: &str) -> (r: Result<String, CryptoError>)
    requires
        encode_utf8(text@).len() + BLOCK_SIZE <= isize::MAX,
    ensures
        r is Ok <==> text@.len() > 0,
        r is Err ==> r->Err_0@ == CryptoFault::EmptyInput,
        r matches Ok(c) ==> exists|iv: Seq<char>|
            is_random_iv(iv) && encryption_with_iv(text@, iv) == Ok::<Seq<char>, CryptoFault>(c@),
        r matches Ok(c) ==> (text@.last() != '\0' ==> decryption(c@) == Ok::<Seq<char>, CryptoFault>(text@)),
        r matches Ok(c) ==> ciphertext_decodes_to_length(c@, padded_length(encode_utf8(text@).len())),
{
    let iv = random_iv();
    let r = encrypt_with_iv(text, iv.as_str());
    proof {
        if r is Ok {
            let c = r->Ok_0;
            assert(is_valid_iv(iv@) && encryption_with_iv(text@, iv@) == Ok::<Seq<char>, CryptoFault>(c@));
        }
    }
    r
}

/// An IV of the kind `encrypt` draws: sixteen ASCII letters and digits.
pub open spec fn is_random_iv(iv: Seq<char>) -> bool {
    &&& iv.len() == BLOCK_SIZE
    &&& is_valid_iv(iv)
    &&& forall|i: int| 0 <= i < iv.len() ==> is_alphanumeric(#[trigger] iv[i])
}

/// Sixteen random ASCII letters and digits.
fn random_iv() -> (iv: String)
    ensures
        is_random_iv(iv@),
{
    let mut iv = String::new();
    let mut k: usize = 0;
    while k < BLOCK_SIZE
        invariant
            k <= BLOCK_SIZE,
            iv@.len() == k,
            forall|i: int| 0 <= i < iv@.len() ==> is_alphanumeric(#[trigger] iv@[i]),
        decreases BLOCK_SIZE - k,
    {
        let b = random_alphanumeric();
        crate::text::push_char(&mut iv, b as char);
        k = k + 1;
    }
    assert(is_ascii_chars(iv@));
    iv
}

/// Decodes a value made by `encrypt`: Base64 ciphertext followed by the IV.
pub fn decrypt(value: &str) -> (r: Result<String, CryptoError>)
    ensures
        text_result(r) == decryption(value@),
        ({
            let bytes = encode_utf8(value@);
            let split = bytes.len() - BLOCK_SIZE;
            (bytes.len() > BLOCK_SIZE && is_ascii_chars(value@)) ==> match base64_decoding(
                bytes.subrange(0, split),
            ) {
                Some(cipher) => (cipher.len() > 0 && cipher.len() % (BLOCK_SIZE as nat) == 0)
                    ==> text_result(r) == plaintext_text(
                    aes128_cbc_decryption(
                        portal_key(),
                        bytes.subrange(split, bytes.len() as int),
                        cipher,
                    ),
                ),
                None => true,
            }
        }),
{
    let bytes = value.as_bytes();
    if bytes.len() <= BLOCK_SIZE || !value.is_ascii() {
        return Err(CryptoError::InvalidData("密文过短或包含非 ASCII 字符"));
    }
    let n: usize = bytes.len();
    let split: usize = n - BLOCK_SIZE;
    let encoded = slice_subrange(bytes, 0, split);
    let iv = slice_subrange(bytes, split, n);
    match base64_decode(encoded) {
        Err(e) => Err(CryptoError::Base64(e)),
        Ok(cipher) => decrypt_ciphertext(cipher.as_slice(), iv),
    }
}

/// Decrypts a Base64-decoded ciphertext under the IV bytes `iv`.
pub fn decrypt_ciphertext(cipher: &[u8], iv: &[u8]) -> (r: Result<String, CryptoError>)
    requires
        iv@.len() == BLOCK_SIZE,
    ensures
        text_result(r) == ciphertext_text(cipher@, iv@),
{
    if cipher.len() == 0 || cipher.len() % BLOCK_SIZE != 0 {
        return Err(CryptoError::InvalidData("AES 密文长度不是 16 的倍数"));
    }
    let key = portal_key_bytes();
    match aes128_cbc_decrypt(key.as_slice(), iv, cipher) {
        None => Err(CryptoError::InvalidData("AES 解密失败")),
        Some(plain) => decode_plaintext(plain),
    }
}

} // verus!
