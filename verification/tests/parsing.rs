use nid::alphabet::{Alphabet, Base16Alphabet, Base58Alphabet, Base62Alphabet, Base64UrlAlphabet};
use nid::{Nanoid, ParseError};

#[test]
fn test_parse_valid() {
    fn inner<const N: usize, A: Alphabet>(s: &str) {
        let id: Nanoid<N, A> = Nanoid::try_from_str(s).unwrap();
        assert_eq!(id.as_str(), s);

        let owned: String = s.to_string();
        let id: Nanoid<N, A> = Nanoid::try_from_str(&owned).unwrap();
        assert_eq!(id.as_str(), s);

        let id: Nanoid<N, A> = s.parse().unwrap();
        assert_eq!(id.as_str(), s);
    }

    inner::<21, Base64UrlAlphabet>("ABCDEFGHIJKLMNOPQ123_");
    inner::<21, Base62Alphabet>("ABCDEFGHIJKLMNOPQ1234");
    inner::<21, Base58Alphabet>("ABCDEFGHJKLMNPQ123456");
    inner::<6, Base64UrlAlphabet>("abc12-");
    inner::<10, Base62Alphabet>("abc1234XYZ");
    inner::<12, Base58Alphabet>("abc123XYZ123");
}

#[test]
fn test_parse_invalid_length() {
    fn inner<const N: usize, A: Alphabet + std::fmt::Debug>(s: &str, expected: usize, actual: usize) {
        let result: Result<Nanoid<N, A>, _> = Nanoid::try_from_str(s);
        assert_eq!(result, Err(ParseError::InvalidLength { expected, actual }));

        let owned: String = s.to_string();
        let result: Result<Nanoid<N, A>, _> = Nanoid::try_from_str(&owned);
        assert_eq!(result, Err(ParseError::InvalidLength { expected, actual }));

        let result: Result<Nanoid<N, A>, _> = s.parse();
        assert_eq!(result, Err(ParseError::InvalidLength { expected, actual }));
    }

    inner::<21, Base64UrlAlphabet>("ABCDEF123!!", 21, 11);
    inner::<21, Base62Alphabet>("#1234567890123456789012345", 21, 26);
    inner::<21, Base58Alphabet>("あいうえお", 21, 15);
    inner::<6, Base64UrlAlphabet>("abcdefg", 6, 7);
    inner::<10, Base62Alphabet>("-_-_", 10, 4);
    inner::<12, Base58Alphabet>("###", 12, 3);
}

#[test]
fn test_parse_invalid_character() {
    fn inner<const N: usize, A: Alphabet + std::fmt::Debug>(s: &str, character: u8) {
        let result: Result<Nanoid<N, A>, _> = Nanoid::try_from_str(s);
        assert_eq!(result, Err(ParseError::InvalidCharacter(character)));

        let owned: String = s.to_string();
        let result: Result<Nanoid<N, A>, _> = Nanoid::try_from_str(&owned);
        assert_eq!(result, Err(ParseError::InvalidCharacter(character)));

        let result: Result<Nanoid<N, A>, _> = s.parse();
        assert_eq!(result, Err(ParseError::InvalidCharacter(character)));
    }

    inner::<21, Base64UrlAlphabet>("$TQBHLT47zhMMxee2LRSo", b'$');
    inner::<21, Base62Alphabet>("1234567890-1234567890", b'-');
    inner::<21, Base58Alphabet>("AtDQpkiYrFufeIGWbcSRk", b'I');
    inner::<6, Base64UrlAlphabet>("アイ", 0xe3);
    inner::<10, Base62Alphabet>(" \n \n \n \n \n", b' ');
    inner::<12, Base58Alphabet>("abcdefghijkl", b'l');
}

#[test]
fn test_parse_from_bytes() {
    let id: Nanoid<4, Base16Alphabet> = Nanoid::try_from_bytes(*b"0A9F").unwrap();
    assert_eq!(id.as_str(), "0A9F");

    let result: Result<Nanoid<4, Base16Alphabet>, _> = Nanoid::try_from_bytes(*b"0A9G");
    assert_eq!(result, Err(ParseError::InvalidCharacter(b'G')));

    // The scan stops at the first offending byte, not a later one.
    let result: Result<Nanoid<4, Base16Alphabet>, _> = Nanoid::try_from_bytes(*b"0z9G");
    assert_eq!(result, Err(ParseError::InvalidCharacter(b'z')));

    // Bytes outside the ASCII range are rejected by the same check.
    let result: Result<Nanoid<4, Base16Alphabet>, _> =
        Nanoid::try_from_bytes([b'0', 0xe3, b'9', b'F']);
    assert_eq!(result, Err(ParseError::InvalidCharacter(0xe3)));
}

#[test]
fn test_parse_empty() {
    // A zero-length identifier is legal: the empty input is trivially valid.
    let id: Nanoid<0, Base64UrlAlphabet> = Nanoid::try_from_str("").unwrap();
    assert_eq!(id.as_str(), "");

    let result: Result<Nanoid<0, Base64UrlAlphabet>, _> = Nanoid::try_from_str("x");
    assert_eq!(result, Err(ParseError::InvalidLength { expected: 0, actual: 1 }));
}

#[test]
fn test_round_trip() {
    fn inner<const N: usize, A: Alphabet + std::fmt::Debug>() {
        let id: Nanoid<N, A> = Nanoid::new();
        let text = id.to_text();
        let back: Nanoid<N, A> = Nanoid::try_from_str(&text).unwrap();
        assert_eq!(back, id);
        assert_eq!(back.as_str(), text);
    }

    inner::<21, Base64UrlAlphabet>();
    inner::<21, Base62Alphabet>();
    inner::<21, Base58Alphabet>();
    inner::<6, Base64UrlAlphabet>();
    inner::<10, Base62Alphabet>();
    inner::<12, Base58Alphabet>();
    inner::<16, Base16Alphabet>();
    inner::<0, Base64UrlAlphabet>();
}
