use srun_client::sign::{checksum, checksum_input, password_signature};

#[test]
fn checksum_input_puts_the_challenge_between_the_fields() {
    let text = checksum_input("CH", "u1", "abc", "1", "10.0.0.5", "200", "1", "XYZ");
    let expected = String::new() + "" + "CH" + "u1" + "CH" + "abc" + "CH" + "1" + "CH" + "10.0.0.5"
        + "CH" + "200" + "CH" + "1" + "CH" + "XYZ";
    assert_eq!(text, expected);
    assert_eq!(text, "CHu1CHabcCH1CH10.0.0.5CH200CH1CHXYZ");
}

#[test]
fn checksum_input_with_empty_fields_is_the_challenge_seven_times() {
    assert_eq!(checksum_input("ab", "", "", "", "", "", "", ""), "ababababababab");
    assert_eq!(checksum_input("", "a", "b", "c", "d", "e", "f", "g"), "abcdefg");
}

#[test]
fn password_signature_is_hmac_md5_in_hex() {
    // RFC 2202, test cases 2 and 1.
    assert_eq!(
        password_signature("Jefe", "what do ya want for nothing?"),
        "750c783e6ab0b503eaa86e310a5db738"
    );
    let key = String::from_utf8(vec![0x0b; 16]).unwrap();
    assert_eq!(password_signature(&key, "Hi There"), "9294727a3638bb1c13f48ef8158bfc9d");
}

#[test]
fn password_signature_takes_a_key_longer_than_a_block() {
    let key = "k".repeat(200);
    let signature = password_signature(&key, "secret");
    assert_eq!(signature.len(), 32);
    assert!(signature.bytes().all(|b| b.is_ascii_digit() || (b'a'..=b'f').contains(&b)));
}

#[test]
fn checksum_is_sha1_in_hex() {
    assert_eq!(checksum("abc"), "a9993e364706816aba3e25717850c26c9cd0d89d");
    assert_eq!(checksum(""), "da39a3ee5e6b4b0d3255bfef95601890afd80709");
}

#[test]
fn signatures_are_the_same_on_every_call() {
    let first = password_signature("challenge-1", "hunter2");
    let second = password_signature("challenge-1", "hunter2");
    assert_eq!(first, second);
    let input = checksum_input("challenge-1", "u1", &first, "1", "10.0.0.5", "200", "1", "XYZ");
    assert_eq!(checksum(&input), checksum(&input));
    assert_eq!(
        input,
        checksum_input("challenge-1", "u1", &second, "1", "10.0.0.5", "200", "1", "XYZ")
    );
}

#[test]
fn signatures_change_with_the_challenge() {
    let one = password_signature("challenge-1", "hunter2");
    let two = password_signature("challenge-2", "hunter2");
    assert_ne!(one, two);
    let input_one = checksum_input("challenge-1", "u1", &one, "1", "10.0.0.5", "200", "1", "XYZ");
    let input_two = checksum_input("challenge-2", "u1", &two, "1", "10.0.0.5", "200", "1", "XYZ");
    assert_ne!(input_one, input_two);
    assert_ne!(checksum(&input_one), checksum(&input_two));
}
