use nid::alphabet::{
    Alphabet, Base16Alphabet, Base16LowercaseAlphabet, Base32Alphabet,
    Base32LowercaseAlphabet, Base36Alphabet, Base36LowercaseAlphabet, Base58Alphabet,
    Base62Alphabet, Base64UrlAlphabet, contains, symbol_at, symbol_count, symbol_table,
};

#[test]
fn test_alphabet_len() {
    assert_eq!(Base64UrlAlphabet::symbol_list().len(), 64);
    assert_eq!(Base62Alphabet::symbol_list().len(), 62);
    assert_eq!(Base58Alphabet::symbol_list().len(), 58);
    assert_eq!(Base36Alphabet::symbol_list().len(), 36);
    assert_eq!(Base36LowercaseAlphabet::symbol_list().len(), 36);
    assert_eq!(Base32Alphabet::symbol_list().len(), 32);
    assert_eq!(Base32LowercaseAlphabet::symbol_list().len(), 32);
    assert_eq!(Base16Alphabet::symbol_list().len(), 16);
    assert_eq!(Base16LowercaseAlphabet::symbol_list().len(), 16);
}

#[test]
fn test_alphabet_symbol_map() {
    assert!(symbol_table::<Base64UrlAlphabet>()[b'A' as usize]);
    assert!(!symbol_table::<Base64UrlAlphabet>()[b':' as usize]);
    assert!(symbol_table::<Base62Alphabet>()[b'A' as usize]);
    assert!(!symbol_table::<Base62Alphabet>()[b'-' as usize]);
    assert!(symbol_table::<Base58Alphabet>()[b'A' as usize]);
    assert!(!symbol_table::<Base58Alphabet>()[b'0' as usize]);
    assert!(symbol_table::<Base36Alphabet>()[b'A' as usize]);
    assert!(!symbol_table::<Base36Alphabet>()[b'a' as usize]);
    assert!(symbol_table::<Base36LowercaseAlphabet>()[b'a' as usize]);
    assert!(!symbol_table::<Base36LowercaseAlphabet>()[b'A' as usize]);
    assert!(symbol_table::<Base32Alphabet>()[b'A' as usize]);
    assert!(!symbol_table::<Base32Alphabet>()[b'8' as usize]);
    assert!(symbol_table::<Base32LowercaseAlphabet>()[b'a' as usize]);
    assert!(!symbol_table::<Base32LowercaseAlphabet>()[b'8' as usize]);
    assert!(symbol_table::<Base16Alphabet>()[b'A' as usize]);
    assert!(!symbol_table::<Base16Alphabet>()[b'Z' as usize]);
    assert!(symbol_table::<Base16LowercaseAlphabet>()[b'a' as usize]);
    assert!(!symbol_table::<Base16LowercaseAlphabet>()[b'z' as usize]);
}

#[test]
fn test_alphabet_symbol_lists() {
    assert_eq!(
        Base64UrlAlphabet::symbol_list(),
        b"ABCDEFGHIJKLMNOPQRSTUVWXYZabcdefghijklmnopqrstuvwxyz0123456789_-"
    );
    assert_eq!(
        Base62Alphabet::symbol_list(),
        b"ABCDEFGHIJKLMNOPQRSTUVWXYZabcdefghijklmnopqrstuvwxyz0123456789"
    );
    assert_eq!(
        Base58Alphabet::symbol_list(),
        b"ABCDEFGHJKLMNPQRSTUVWXYZabcdefghijkmnopqrstuvwxyz123456789"
    );
    assert_eq!(Base36Alphabet::symbol_list(), b"ABCDEFGHIJKLMNOPQRSTUVWXYZ0123456789");
    assert_eq!(
        Base36LowercaseAlphabet::symbol_list(),
        b"abcdefghijklmnopqrstuvwxyz0123456789"
    );
    assert_eq!(Base32Alphabet::symbol_list(), b"ABCDEFGHIJKLMNOPQRSTUVWXYZ234567");
    assert_eq!(Base32LowercaseAlphabet::symbol_list(), b"abcdefghijklmnopqrstuvwxyz234567");
    assert_eq!(Base16Alphabet::symbol_list(), b"ABCDEF0123456789");
    assert_eq!(Base16LowercaseAlphabet::symbol_list(), b"abcdef0123456789");
}

#[test]
fn test_alphabet_accessors() {
    assert_eq!(symbol_count::<Base64UrlAlphabet>(), 64);
    assert_eq!(symbol_at::<Base64UrlAlphabet>(0), b'A');
    assert_eq!(symbol_at::<Base64UrlAlphabet>(62), b'_');
    assert_eq!(symbol_at::<Base64UrlAlphabet>(63), b'-');
    assert_eq!(symbol_at::<Base58Alphabet>(8), b'J');
    assert!(contains::<Base64UrlAlphabet>(b'_'));
    assert!(!contains::<Base62Alphabet>(b'_'));
    assert!(!contains::<Base16Alphabet>(0xe3));
    assert!(!contains::<Base16Alphabet>(200));
}
