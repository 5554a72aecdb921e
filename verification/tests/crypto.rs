use base64::engine::general_purpose::STANDARD;
use base64::Engine;
use hzii_net::crypto::{
    decode_plaintext, decrypt, decrypt_ciphertext, encrypt, encrypt_with_iv, frame_ciphertext,
    zero_pad, CryptoError, BLOCK_SIZE,
};

#[test]
fn matches_known_aes_vector() {
    let encrypted = encrypt_with_iv("hello", "0123456789ABCDEF").unwrap();
    assert_eq!(encrypted, "843dwvBGs93Jld0gMUEdBg==0123456789ABCDEF");
    assert_eq!(decrypt(&encrypted).unwrap(), "hello");
}

#[test]
fn exact_block_does_not_add_another_block() {
    let encrypted = encrypt_with_iv("1234567890ABCDEF", "FEDCBA9876543210").unwrap();
    let encoded = &encrypted[..encrypted.len() - BLOCK_SIZE];
    assert_eq!(STANDARD.decode(encoded).unwrap().len(), BLOCK_SIZE);
    assert_eq!(decrypt(&encrypted).unwrap(), "1234567890ABCDEF");
}

#[test]
fn empty_text_is_refused() {
    assert!(matches!(encrypt_with_iv("", "0123456789ABCDEF"), Err(CryptoError::EmptyInput)));
    assert!(matches!(encrypt(""), Err(CryptoError::EmptyInput)));
}

#[test]
fn iv_must_be_sixteen_ascii_bytes() {
    for iv in ["short", "0123456789ABCDEFG", "0123456789ABCDé"] {
        match encrypt_with_iv("hello", iv) {
            Err(CryptoError::InvalidData(m)) => assert_eq!(m, "IV 必须是 16 字节 ASCII 文本"),
            _ => panic!("IV {iv:?} was accepted"),
        }
    }
}

#[test]
fn random_iv_round_trips() {
    for text in ["u", "学号2024", "a much longer password that spans several blocks!"] {
        let encrypted = encrypt(text).unwrap();
        let iv = &encrypted[encrypted.len() - BLOCK_SIZE..];
        assert!(iv.chars().all(|c| c.is_ascii_alphanumeric()));
        assert_eq!(decrypt(&encrypted).unwrap(), text);
    }
}

#[test]
fn trailing_nul_is_lost_in_round_trip() {
    let encrypted = encrypt_with_iv("ab\0", "0123456789ABCDEF").unwrap();
    assert_eq!(decrypt(&encrypted).unwrap(), "ab");
}

#[test]
fn decrypt_rejects_short_or_non_ascii() {
    for value in ["0123456789ABCDEF", "", "é843dwvBGs93Jld0gMUEdBg==0123456789ABCDEF"] {
        match decrypt(value) {
            Err(CryptoError::InvalidData(m)) => assert_eq!(m, "密文过短或包含非 ASCII 字符"),
            other => panic!("{value:?} gave {other:?}"),
        }
    }
}

#[test]
fn decrypt_rejects_bad_base64() {
    assert!(matches!(decrypt("!!!!0123456789ABCDEF"), Err(CryptoError::Base64(_))));
}

#[test]
fn decrypt_rejects_partial_block() {
    // "AAAA" decodes to three bytes.
    match decrypt("AAAA0123456789ABCDEF") {
        Err(CryptoError::InvalidData(m)) => assert_eq!(m, "AES 密文长度不是 16 的倍数"),
        other => panic!("{other:?}"),
    }
}

#[test]
fn decrypt_ciphertext_checks_length() {
    assert!(matches!(decrypt_ciphertext(&[], b"0123456789ABCDEF"), Err(CryptoError::InvalidData(_))));
    assert!(matches!(decrypt_ciphertext(&[1; 17], b"0123456789ABCDEF"), Err(CryptoError::InvalidData(_))));
}

#[test]
fn plaintext_drops_trailing_zeros_and_checks_utf8() {
    assert_eq!(decode_plaintext(b"hi\0\0\0".to_vec()).unwrap(), "hi");
    assert_eq!(decode_plaintext(vec![0, 0]).unwrap(), "");
    assert_eq!(decode_plaintext("学".as_bytes().to_vec()).unwrap(), "学");
    assert!(matches!(decode_plaintext(vec![0xff, 0]), Err(CryptoError::Utf8(_))));
}

#[test]
fn zero_padding_fills_whole_blocks() {
    assert_eq!(zero_pad(b"abc").len(), 16);
    assert_eq!(&zero_pad(b"abc")[..3], b"abc");
    assert!(zero_pad(b"abc")[3..].iter().all(|b| *b == 0));
    assert_eq!(zero_pad(&[7; 16]), vec![7; 16]);
    assert_eq!(zero_pad(&[7; 17]).len(), 32);
    assert!(zero_pad(&[]).is_empty());
}

#[test]
fn frame_is_base64_then_iv() {
    assert_eq!(frame_ciphertext(b"Man", "IV"), "TWFuIV");
    assert_eq!(frame_ciphertext(b"Ma", ""), "TWE=");
    assert_eq!(frame_ciphertext(b"M", "x"), "TQ==x");
    assert_eq!(frame_ciphertext(&[0xfb, 0xff], ""), "+/8=");
}

#[test]
fn ciphertext_is_text_rounded_up_to_blocks() {
    for text in ["a", "0123456789abcde", "0123456789abcdef", "0123456789abcdefg", "学号学号学号"] {
        let r = encrypt_with_iv(text, "FEDCBA9876543210").unwrap();
        assert!(r.is_ascii() && r.ends_with("FEDCBA9876543210"));
        let decoded = STANDARD.decode(&r[..r.len() - BLOCK_SIZE]).unwrap();
        assert_eq!(decoded.len(), (text.len() + 15) / 16 * 16);
    }
}
