use radius_proto::password::conceal;
use radius_proto::password::unhide;

#[test]
fn unhide_short_works() {
    let authenticator = [
        93u8, 47, 235, 29, 179, 103, 83, 63, 45, 40, 174, 159, 52, 103, 66, 219,
    ];
    let hidden = [
        203u8, 148, 156, 169, 212, 124, 106, 127, 87, 211, 97, 131, 76, 102, 155, 136,
    ];
    let secret = "secret";

    assert_eq!(
        unhide(secret, &authenticator, &hidden),
        Some(String::from("mypass"))
    );
}

#[test]
fn unhide_long_works() {
    let authenticator = [
        220u8, 89, 137, 91, 5, 47, 128, 214, 230, 213, 60, 160, 213, 148, 14, 73,
    ];
    let hidden = [
        103u8, 251, 92, 58, 78, 1, 105, 179, 78, 60, 214, 180, 110, 169, 213, 196, 228, 60, 209,
        189, 76, 5, 214, 49, 255, 124, 47, 54, 163, 171, 216, 209,
    ];
    let secret = "secret";

    assert_eq!(
        unhide(secret, &authenticator, &hidden),
        Some(String::from("thisisaverylongpassword"))
    );
}

#[test]
fn conceal_then_unhide_round_trips() {
    let authenticator = [
        1u8, 2, 3, 4, 5, 6, 7, 8, 9, 10, 11, 12, 13, 14, 15, 16,
    ];
    let secret = "a shared secret";
    let password = "correct horse battery staple";

    let hidden = conceal(secret, &authenticator, password);
    assert_eq!(hidden.len(), password.len());
    assert_eq!(
        unhide(secret, &authenticator, &hidden),
        Some(String::from(password))
    );
}

#[test]
fn conceal_changes_the_bytes() {
    let authenticator = [7u8; 16];
    let hidden = conceal("secret", &authenticator, "plaintext");

    assert_ne!(hidden.as_slice(), "plaintext".as_bytes());
}

#[test]
fn unhide_empty_password_is_empty() {
    let authenticator = [0u8; 16];
    let hidden: [u8; 0] = [];

    assert_eq!(
        unhide("secret", &authenticator, &hidden),
        Some(String::new())
    );
}

#[test]
fn unhide_strips_trailing_zero_padding() {
    let authenticator = [42u8; 16];
    let secret = "secret";
    // A 16-byte block whose tail the peer padded with zero bytes.
    let mut padded = String::from("pw").into_bytes();
    padded.resize(16, 0);
    let hidden = conceal_bytes_like_peer(secret, &authenticator, &padded);

    assert_eq!(unhide(secret, &authenticator, &hidden), Some(String::from("pw")));
}

/// XOR a single padded block the way a sending peer would, using the md5
/// crate directly and independently of the library.
fn conceal_bytes_like_peer(secret: &str, authenticator: &[u8], block: &[u8]) -> Vec<u8> {
    let mut key_input = Vec::new();
    key_input.extend_from_slice(secret.as_bytes());
    key_input.extend_from_slice(authenticator);
    let key = md5::compute(&key_input);
    block.iter().zip(key.0.iter()).map(|(a, b)| a ^ b).collect()
}
