use beiwagen::hasher::sha256;
use beiwagen::hasher::to_hex_lower;

#[test]
fn hex_encoding_is_lowercase_two_digits_per_byte() {
    assert_eq!(to_hex_lower(&vec![]), "".to_string());
    assert_eq!(to_hex_lower(&vec![0x00, 0xbe, 0xef, 0x0a]), "00beef0a".to_string());
}

#[test]
fn sha256_of_the_empty_input() {
    assert_eq!(
        sha256(&vec![]),
        "e3b0c44298fc1c149afbf4c8996fb92427ae41e4649b934ca495991b7852b855".to_string()
    );
}

#[test]
fn sha256_of_a_known_input() {
    let hash = sha256(&b"abc".to_vec());
    assert_eq!(
        hash,
        "ba7816bf8f01cfea414140de5dae2223b00361a396177a9cb410ff61f20015ad".to_string()
    );
    assert_eq!(hash.len(), 64);
}
