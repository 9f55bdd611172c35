use radius_proto::error::Error;
use radius_proto::error::ParseError;
use radius_proto::error::SerializeError;
use radius_proto::packet::AUTHENTICATOR_LEN;
use radius_proto::parser::parse;
use radius_proto::password::conceal;
use radius_proto::process;
use radius_proto::response::access_response;
use radius_proto::response::Type;
use radius_proto::serialize::serialize;
use radius_proto::Attribute;
use radius_proto::Code;
use radius_proto::Packet;

fn header_only_packet(code: Code, identifier: u8, authenticator: Vec<u8>) -> Packet {
    Packet {
        code,
        identifier,
        authenticator,
        attributes: Vec::new(),
    }
}

fn request_bytes(identifier: u8, authenticator: &[u8], secret: &str, password: &str) -> Vec<u8> {
    let hidden = conceal(secret, authenticator, password);
    let username = b"alice";
    let total = 20 + 2 + username.len() + 2 + hidden.len();
    let mut bytes = vec![1u8, identifier, (total / 256) as u8, (total % 256) as u8];
    bytes.extend_from_slice(authenticator);
    bytes.push(1);
    bytes.push((2 + username.len()) as u8);
    bytes.extend_from_slice(username);
    bytes.push(2);
    bytes.push((2 + hidden.len()) as u8);
    bytes.extend_from_slice(&hidden);
    bytes
}

#[test]
fn code_equality_is_numeric() {
    assert!(Code::Unknown(1) == Code::AccessRequest);
    assert!(Code::AccessAccept == Code::AccessAccept);
    assert!(Code::AccessAccept != Code::AccessReject);
    assert!(Code::Unknown(77) == Code::Unknown(77));
    assert!(Code::Unknown(77) != Code::Unknown(78));
}

#[test]
fn code_round_trips_through_bytes() {
    assert_eq!(Code::AccessRequest.to_byte(), 1);
    assert_eq!(Code::AccessAccept.to_byte(), 2);
    assert_eq!(Code::AccessReject.to_byte(), 3);
    assert_eq!(Code::Unknown(200).to_byte(), 200);
    assert!(Code::from_byte(2) == Code::AccessAccept);
    assert!(Code::from_byte(200) == Code::Unknown(200));
}

#[test]
fn parse_rejects_short_buffer() {
    assert!(matches!(parse(&[0u8; 10]), Err(ParseError::Truncated)));
    assert!(matches!(parse(&[]), Err(ParseError::Truncated)));
}

#[test]
fn parse_rejects_declared_length_below_header() {
    let mut bytes = vec![1u8, 0, 0, 10];
    bytes.extend_from_slice(&[0u8; 16]);
    assert!(matches!(parse(&bytes), Err(ParseError::InvalidLength)));
}

#[test]
fn parse_rejects_declared_length_beyond_buffer() {
    let mut bytes = vec![1u8, 0, 0, 25];
    bytes.extend_from_slice(&[0u8; 16]);
    assert!(matches!(parse(&bytes), Err(ParseError::Truncated)));
}

#[test]
fn parse_rejects_attribute_length_below_two() {
    let mut bytes = vec![1u8, 0, 0, 22];
    bytes.extend_from_slice(&[0u8; 16]);
    bytes.extend_from_slice(&[1, 1]);
    assert!(matches!(parse(&bytes), Err(ParseError::InvalidAttribute)));
}

#[test]
fn parse_rejects_partial_trailing_attribute() {
    let mut bytes = vec![1u8, 0, 0, 23];
    bytes.extend_from_slice(&[0u8; 16]);
    bytes.extend_from_slice(&[1, 9, 97]);
    assert!(matches!(parse(&bytes), Err(ParseError::InvalidAttribute)));
}

#[test]
fn parse_rejects_invalid_text_in_username() {
    let mut bytes = vec![1u8, 0, 0, 23];
    bytes.extend_from_slice(&[0u8; 16]);
    bytes.extend_from_slice(&[1, 3, 0xFF]);
    assert!(matches!(parse(&bytes), Err(ParseError::InvalidText)));
}

#[test]
fn parse_decodes_header_and_attributes() {
    let authenticator: Vec<u8> = (1..=16).collect();
    let mut bytes = vec![1u8, 42, 0, 31];
    bytes.extend_from_slice(&authenticator);
    bytes.extend_from_slice(&[1, 7]);
    bytes.extend_from_slice(b"alice");
    bytes.extend_from_slice(&[99, 4, 7, 8]);

    let packet = parse(&bytes).unwrap();
    assert!(packet.code == Code::AccessRequest);
    assert_eq!(packet.identifier, 42);
    assert_eq!(packet.authenticator, authenticator);
    assert_eq!(packet.attributes.len(), 2);
    match &packet.attributes[0] {
        Attribute::UserName(s) => assert_eq!(s.as_str(), "alice"),
        _ => panic!("expected a user-name attribute"),
    }
    match &packet.attributes[1] {
        Attribute::Unknown(t, v) => {
            assert_eq!(*t, 99);
            assert_eq!(v.as_slice(), &[7u8, 8][..]);
        }
        _ => panic!("expected an unknown attribute"),
    }
}

#[test]
fn parse_ignores_bytes_beyond_declared_length() {
    let mut bytes = vec![2u8, 9, 0, 20];
    bytes.extend_from_slice(&[5u8; 16]);
    bytes.extend_from_slice(&[1, 2, 3, 4]);

    let packet = parse(&bytes).unwrap();
    assert!(packet.code == Code::AccessAccept);
    assert_eq!(packet.attributes.len(), 0);
}

#[test]
fn serialize_header_only_succeeds() {
    let packet = header_only_packet(Code::AccessAccept, 9, vec![3u8; AUTHENTICATOR_LEN]);
    let encoded = serialize(&packet).unwrap();
    assert_eq!(encoded.len(), 20);
    assert_eq!(&encoded[..4], &[2u8, 9, 0, 20][..]);
    assert_eq!(&encoded[4..20], &[3u8; 16][..]);
}

#[test]
fn serialize_refuses_attributes_as_not_implemented() {
    let packet = Packet {
        code: Code::AccessAccept,
        identifier: 0,
        authenticator: vec![0u8; AUTHENTICATOR_LEN],
        attributes: vec![Attribute::UserName(String::from("x"))],
    };
    assert!(matches!(serialize(&packet), Err(SerializeError::NotImplemented)));
}

#[test]
fn access_response_maps_outcomes_and_copies_identifier() {
    let request = header_only_packet(Code::AccessRequest, 123, vec![9u8; AUTHENTICATOR_LEN]);

    let accept = access_response("secret", &request, Type::AuthSuccess);
    assert!(accept.code == Code::AccessAccept);
    assert_eq!(accept.identifier, 123);
    assert_eq!(accept.attributes.len(), 0);
    assert_eq!(accept.authenticator.len(), AUTHENTICATOR_LEN);

    let reject = access_response("secret", &request, Type::AuthFailure);
    assert!(reject.code == Code::AccessReject);
    assert_eq!(reject.identifier, 123);
}

#[test]
fn process_accepts_valid_credentials() {
    let authenticator: Vec<u8> = (100..=115).collect();
    let secret = "secret";
    let bytes = request_bytes(7, &authenticator, secret, "pw");

    let response = process(secret, &bytes, |user: &str, pass: &str| {
        user == "alice" && pass == "pw"
    })
    .unwrap()
    .unwrap();

    assert_eq!(response.len(), 20);
    let packet = parse(&response).unwrap();
    assert!(packet.code == Code::AccessAccept);
    assert_eq!(packet.identifier, 7);
    assert_eq!(packet.attributes.len(), 0);

    // Recompute the response authenticator independently from the wire
    // formula: MD5(code, identifier, length, request authenticator, secret).
    let mut auth_input = vec![2u8, 7, 0, 20];
    auth_input.extend_from_slice(&authenticator);
    auth_input.extend_from_slice(secret.as_bytes());
    let digest = md5::compute(&auth_input);
    assert_eq!(&response[4..20], &digest.0[..]);
}

#[test]
fn process_rejects_wrong_credentials() {
    let authenticator: Vec<u8> = (100..=115).collect();
    let secret = "secret";
    let bytes = request_bytes(8, &authenticator, secret, "wrong");

    let response = process(secret, &bytes, |user: &str, pass: &str| {
        user == "alice" && pass == "pw"
    })
    .unwrap()
    .unwrap();

    let packet = parse(&response).unwrap();
    assert!(packet.code == Code::AccessReject);
    assert_eq!(packet.identifier, 8);
}

#[test]
fn process_is_idempotent_for_a_deterministic_decision() {
    let authenticator: Vec<u8> = (0..16).collect();
    let secret = "secret";
    let bytes = request_bytes(55, &authenticator, secret, "pw");
    let decide = |_user: &str, _pass: &str| true;

    let first = process(secret, &bytes, decide).unwrap();
    let second = process(secret, &bytes, decide).unwrap();
    assert_eq!(first, second);
    assert!(first.is_some());
}

#[test]
fn process_drops_short_buffer() {
    let result = process("secret", &[1u8, 2, 3], |_: &str, _: &str| true).unwrap();
    assert_eq!(result, None);
}

#[test]
fn process_drops_over_declared_length() {
    let mut bytes = vec![1u8, 0, 0, 40];
    bytes.extend_from_slice(&[0u8; 16]);
    let result = process("secret", &bytes, |_: &str, _: &str| true).unwrap();
    assert_eq!(result, None);
}

#[test]
fn process_drops_non_access_request() {
    let mut bytes = vec![2u8, 0, 0, 20];
    bytes.extend_from_slice(&[0u8; 16]);
    let result = process("secret", &bytes, |_: &str, _: &str| true).unwrap();
    assert_eq!(result, None);
}

#[test]
fn process_drops_request_without_password_attribute() {
    let mut bytes = vec![1u8, 0, 0, 27];
    bytes.extend_from_slice(&[0u8; 16]);
    bytes.extend_from_slice(&[1, 7]);
    bytes.extend_from_slice(b"alice");
    let result = process("secret", &bytes, |_: &str, _: &str| true).unwrap();
    assert_eq!(result, None);
}

#[test]
fn error_carries_its_message() {
    let error = Error::new("boom");
    assert_eq!(error.message().as_str(), "boom");
}
