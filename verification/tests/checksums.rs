use minecraft_launcher_core::checksum::{HexError, Sha1Sum, Sha1SumError};

fn sum_of(hex: &str) -> Sha1Sum {
    Sha1Sum::try_from(hex).expect("forty hexadecimal digits")
}

#[test]
fn digest_of_known_texts() {
    assert_eq!(Sha1Sum::from_reader(b"abc").to_string(), "a9993e364706816aba3e25717850c26c9cd0d89d");
    assert_eq!(Sha1Sum::from_reader(b"").to_string(), "da39a3ee5e6b4b0d3255bfef95601890afd80709");
    assert_eq!(Sha1Sum::from_reader(b"hello").to_string(), "aaf4c61ddcc5e8a2dabede0f3b482cd9aea9434d");
}

#[test]
fn new_keeps_the_bytes() {
    let mut bytes = [0u8; 20];
    for (i, byte) in bytes.iter_mut().enumerate() {
        *byte = (i * 13) as u8;
    }
    let sum = Sha1Sum::new(bytes);
    assert_eq!(sum.0, bytes);
    assert_eq!(sum.to_string(), "000d1a2734414e5b6875828f9ca9b6c3d0ddeaf7");
}

#[test]
fn null_is_twenty_zero_bytes() {
    let null = Sha1Sum::null();
    assert_eq!(null.0, [0u8; 20]);
    assert!(null.is_unknown());
    assert_eq!(null.to_string(), "0000000000000000000000000000000000000000");
    assert!(!Sha1Sum::from_reader(b"abc").is_unknown());
}

#[test]
fn text_is_forty_lower_case_digits() {
    let text = Sha1Sum::new([0xAB; 20]).to_string();
    assert_eq!(text.len(), 40);
    assert_eq!(text, "abababababababababababababababababababab");
}

#[test]
fn reading_accepts_both_cases() {
    let lower = sum_of("a9993e364706816aba3e25717850c26c9cd0d89d");
    let upper = sum_of("A9993E364706816ABA3E25717850C26C9CD0D89D");
    let mixed = sum_of("a9993E364706816aBA3e25717850c26c9cd0d89D");
    assert!(lower == upper);
    assert!(lower == mixed);
    assert_eq!(lower.0[0], 0xa9);
    assert_eq!(lower.0[19], 0x9d);
    assert!(lower == Sha1Sum::from_reader(b"abc"));
}

#[test]
fn reading_and_writing_round_trip() {
    let text = "da39a3ee5e6b4b0d3255bfef95601890afd80709";
    assert_eq!(sum_of(text).to_string(), text);
    let sum = Sha1Sum::from_reader(b"round trip");
    assert!(sum_of(&sum.to_string()) == sum);
}

#[test]
fn odd_length_is_refused() {
    match Sha1Sum::try_from("abc") {
        Err(Sha1SumError::HexError(error)) => assert_eq!(error, HexError::OddLength),
        Ok(_) => panic!("accepted"),
    }
}

#[test]
fn wrong_length_is_refused() {
    match Sha1Sum::try_from("abcd") {
        Err(Sha1SumError::HexError(error)) => {
            assert_eq!(error, HexError::InvalidStringLength)
        }
        Ok(_) => panic!("accepted"),
    }
    assert!(Sha1Sum::try_from("").is_err());
    assert!(Sha1Sum::try_from("a9993e364706816aba3e25717850c26c9cd0d89d00").is_err());
}

#[test]
fn other_characters_are_refused() {
    match Sha1Sum::try_from("g9993e364706816aba3e25717850c26c9cd0d89d") {
        Err(Sha1SumError::HexError(error)) => {
            assert_eq!(error, HexError::InvalidHexCharacter { c: 'g', index: 0 })
        }
        Ok(_) => panic!("accepted"),
    }
    match Sha1Sum::try_from("a9993e364706816aba3e25717850c26c9cd0d89\n") {
        Err(Sha1SumError::HexError(error)) => {
            assert_eq!(error, HexError::InvalidHexCharacter { c: '\n', index: 39 })
        }
        Ok(_) => panic!("accepted"),
    }
    assert!(Sha1Sum::from_hex(b"a9993e364706816aba3e25717850c26c9cd0d8\xc3\xa9").is_err());
}

#[test]
fn different_sums_are_not_equal() {
    assert!(Sha1Sum::from_reader(b"a") != Sha1Sum::from_reader(b"b"));
    assert!(Sha1Sum::null() != Sha1Sum::from_reader(b""));
}
