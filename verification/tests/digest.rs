use relay_panel::digest::check_digest;
use relay_panel::digest::digest_text;
use relay_panel::digest::first_word_of;
use relay_panel::digest::verify_binary;

const HELLO: &str = "b94d27b9934d3e08a52e52d7da7dabfac484efe37a5380ee9088f7ace2efcde9";
const ABC: &str = "ba7816bf8f01cfea414140de5dae2223b00361a396177a9cb410ff61f20015ad";

#[test]
fn published_digest_is_accepted() {
    let file = format!("{}  relay-node-linux-amd64\n", HELLO);
    assert_eq!(verify_binary(b"hello world", &file), Ok(()));
    assert_eq!(verify_binary(b"hello world", HELLO), Ok(()));
    assert_eq!(verify_binary(b"abc", ABC), Ok(()));
}

#[test]
fn capital_digits_are_accepted() {
    let file = format!(" \t{}\u{2003}relay-node", HELLO.to_uppercase());
    assert_eq!(verify_binary(b"hello world", &file), Ok(()));
}

#[test]
fn other_digest_is_a_mismatch() {
    let verdict = verify_binary(b"hello world", ABC);
    assert_eq!(
        verdict,
        Err(format!("sha256 mismatch: expected {}, got {}", ABC, HELLO))
    );
}

#[test]
fn malformed_files_are_quoted() {
    assert_eq!(
        verify_binary(b"hello world", "not \"a\" digest\n"),
        Err("malformed sha256 file: \"not \\\"a\\\" digest\\n\"".to_string())
    );
    assert_eq!(
        verify_binary(b"hello world", ""),
        Err("malformed sha256 file: \"\"".to_string())
    );
    let short = &HELLO[1..];
    assert_eq!(
        verify_binary(b"hello world", short),
        Err(format!("malformed sha256 file: \"{}\"", short))
    );
    let long = format!("{}0", HELLO);
    assert_eq!(
        verify_binary(b"hello world", &long),
        Err(format!("malformed sha256 file: \"{}\"", long))
    );
}

#[test]
fn check_takes_the_outside_results() {
    let digest: Vec<u8> = vec![0xab; 32];
    let expected = "ab".repeat(32);
    assert_eq!(check_digest(&expected, "quoted", &digest), Ok(()));
    assert_eq!(
        check_digest("xyz", "\"xyz\"", &digest),
        Err("malformed sha256 file: \"xyz\"".to_string())
    );
    let capital = "AB".repeat(32);
    assert_eq!(check_digest(&capital, "quoted", &digest), Ok(()));
    // A mismatch shows the digest in lower case.
    let other = "CD".repeat(32);
    assert_eq!(
        check_digest(&other, "quoted", &digest),
        Err(format!(
            "sha256 mismatch: expected {}, got {}",
            "cd".repeat(32),
            expected
        ))
    );
}

#[test]
fn digest_texts() {
    assert!(digest_text(HELLO));
    assert!(digest_text(&HELLO.to_uppercase()));
    assert!(!digest_text(&HELLO.replace('b', "g")));
    assert!(!digest_text(""));
    assert!(!digest_text(&"é".repeat(32)));
    assert!(!digest_text(&"é".repeat(64)));
}

#[test]
fn first_words() {
    assert_eq!(first_word_of(""), "");
    assert_eq!(first_word_of(" \n\t "), "");
    assert_eq!(first_word_of("one"), "one");
    assert_eq!(first_word_of("  one two"), "one");
    assert_eq!(first_word_of("ünö\u{3000}two"), "ünö");
}

#[test]
fn first_words_split_where_unicode_has_white_space() {
    let mut n: u32 = 0;
    while n <= 0x10ffff {
        if let Some(c) = char::from_u32(n) {
            let text = format!("a{}b", c);
            let expected = text.split_whitespace().next().unwrap_or("");
            assert_eq!(first_word_of(&text), expected);
        }
        n += 1;
    }
}

#[test]
fn only_the_first_word_and_not_its_case_matters() {
    let files = [
        HELLO.to_string(),
        HELLO.to_uppercase(),
        format!("\n {}\tother-name", HELLO),
        format!("{} {}", HELLO.to_uppercase(), ABC),
    ];
    for file in &files {
        assert_eq!(verify_binary(b"hello world", file), Ok(()));
        assert!(verify_binary(b"abc", file).is_err());
    }
}

#[test]
fn lower_case_makes_no_hexadecimal_digit_of_another_character() {
    let mut n: u32 = 0;
    while n <= 0x10ffff {
        if let Some(c) = char::from_u32(n) {
            let lower = c.to_string().to_lowercase();
            if lower.bytes().all(|b| b.is_ascii_hexdigit()) {
                assert!(c.is_ascii_hexdigit());
            }
        }
        n += 1;
    }
    // The Kelvin sign, whose lower case is ASCII.
    let kelvin = format!("{}\u{212a}", &HELLO[1..]);
    assert!(verify_binary(b"hello world", &kelvin).is_err());
}
