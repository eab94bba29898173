use caesar_cipher_enc_dec::caesar_cipher::{decrypt, decrypt_safe, encrypt, encrypt_safe, CipherError};

#[test]
fn length_kept_for_multibyte_text() {
    let text = "Grüße, 世界! 🎉 Zz";
    let out = encrypt(text, 11);
    assert_eq!(out.chars().count(), text.chars().count());
    let back = decrypt(text, 11);
    assert_eq!(back.chars().count(), text.chars().count());
}

#[test]
fn round_trip_at_extreme_shifts() {
    let text = "Attack at Dawn, zebra! 123";
    for shift in [i16::MIN, i16::MIN + 1, -27, -1, 0, 1, 13, 27, i16::MAX] {
        assert_eq!(decrypt(&encrypt(text, shift), shift), text);
        assert_eq!(encrypt(&decrypt(text, shift), shift), text);
    }
    assert_eq!(encrypt(&encrypt(text, 5), -5), text);
}

#[test]
fn case_kept_for_every_letter() {
    let text = "AbCdEfGhIjKlMnOpQrStUvWxYz";
    let out = encrypt(text, 17);
    for (a, b) in text.chars().zip(out.chars()) {
        assert_eq!(a.is_ascii_uppercase(), b.is_ascii_uppercase());
        assert_eq!(a.is_ascii_lowercase(), b.is_ascii_lowercase());
    }
    assert_eq!(out, "RsTuVwXyZaBcDeFgHiJkLmNoPq");
}

#[test]
fn non_letters_unchanged() {
    let text = "0123456789 !@#$%^&*()[]{} \t\n éÉßøΩж こんにちは 🎉 `{@[";
    assert_eq!(encrypt(text, 7), text);
    assert_eq!(decrypt(text, 7), text);
}

#[test]
fn shifts_twenty_six_apart_agree() {
    let text = "Periodic Shift, xyz";
    for shift in [-100i16, -26, -1, 0, 3, 25, 26, 99] {
        assert_eq!(encrypt(text, shift), encrypt(text, shift + 26));
        assert_eq!(encrypt(text, shift), encrypt(text, shift - 26));
    }
}

#[test]
fn extreme_shifts_do_not_panic() {
    // 32767 = 26 * 1260 + 7 and -32768 = 26 * (-1261) + 18
    assert_eq!(encrypt("ABC xyz", i16::MAX), "HIJ efg");
    assert_eq!(encrypt("ABC xyz", i16::MIN), "STU pqr");
    assert_eq!(decrypt("ABC xyz", i16::MAX), "TUV qrs");
    assert_eq!(decrypt("ABC xyz", i16::MIN), "IJK fgh");
    assert!(matches!(encrypt_safe("ABC", i16::MIN), Err(CipherError::InvalidShift(_))));
    assert!(matches!(encrypt_safe("ABC", i16::MAX), Err(CipherError::InvalidShift(_))));
    assert!(matches!(decrypt_safe("ABC", i16::MIN), Err(CipherError::InvalidShift(_))));
    assert!(matches!(decrypt_safe("ABC", i16::MAX), Err(CipherError::InvalidShift(_))));
}

#[test]
fn empty_check_comes_before_shift_check() {
    assert_eq!(encrypt_safe("", 9999), Err(CipherError::EmptyText));
    assert_eq!(decrypt_safe("", 9999), Err(CipherError::EmptyText));
    assert_eq!(encrypt_safe("", i16::MIN), Err(CipherError::EmptyText));
}

#[test]
fn validator_bounds() {
    assert_eq!(encrypt_safe("A", 25), Ok("Z".to_string()));
    assert_eq!(encrypt_safe("A", -25), Ok("B".to_string()));
    assert!(matches!(encrypt_safe("A", 26), Err(CipherError::InvalidShift(_))));
    assert!(matches!(encrypt_safe("A", -26), Err(CipherError::InvalidShift(_))));
    assert_eq!(decrypt_safe("A", 25), Ok("B".to_string()));
    assert_eq!(decrypt_safe("A", -25), Ok("Z".to_string()));
    assert!(matches!(decrypt_safe("A", 26), Err(CipherError::InvalidShift(_))));
    assert!(matches!(decrypt_safe("A", -26), Err(CipherError::InvalidShift(_))));
}

#[test]
fn concrete_scenarios() {
    assert_eq!(encrypt("Hello", 3), "Khoor");
    assert_eq!(decrypt("Khoor", 3), "Hello");
    assert_eq!(encrypt("Hello, World! 123", 3), "Khoor, Zruog! 123");
    assert_eq!(encrypt("ABC", -1), "ZAB");
    assert_eq!(encrypt("ABC", 27), "BCD");
    assert_eq!(encrypt_safe("", 3), Err(CipherError::EmptyText));
    match encrypt_safe("Test", 26) {
        Err(CipherError::InvalidShift(m)) => assert!(m.contains("26")),
        other => panic!("expected InvalidShift, got {:?}", other),
    }
}

#[test]
fn invalid_shift_messages_are_exact() {
    assert_eq!(
        encrypt_safe("Test", 26),
        Err(CipherError::InvalidShift("Shift value 26 is out of range (-25 to 25)".to_string()))
    );
    assert_eq!(
        decrypt_safe("Test", i16::MIN),
        Err(CipherError::InvalidShift(
            "Shift value -32768 is out of range (-25 to 25)".to_string()
        ))
    );
    assert_eq!(
        encrypt_safe("Test", -100).unwrap_err().to_string(),
        "Invalid shift value: Shift value -100 is out of range (-25 to 25)"
    );
    assert_eq!(CipherError::EmptyText.to_string(), "Input text cannot be empty");
}

#[test]
fn empty_text_is_fine_for_unchecked_calls() {
    assert_eq!(encrypt("", 5), "");
    assert_eq!(decrypt("", i16::MIN), "");
}
