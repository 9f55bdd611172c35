//! A verified core for a minimal RADIUS access-request responder.
//!
//! The library decodes an inbound access-request datagram, reverses the
//! shared-secret password obfuscation, maps an externally supplied
//! authentication decision to an accept/reject response, and encodes that
//! response with its keyed response authenticator. Transport, configuration,
//! and the concrete authentication backend live outside this core.

use vstd::prelude::*;

mod digest;
pub mod error;
pub mod packet;
pub mod parser;
pub mod password;
pub mod response;
pub mod serialize;
mod text;

pub use packet::Attribute;
pub use packet::Code;
pub use packet::Packet;

use crate::error::SerializeError;
use crate::packet::AttributeModel;
use crate::packet::PacketModel;
use crate::parser::spec_parse;
use crate::password::spec_unhide_bytes;
use crate::response::spec_response_auth;
use vstd::utf8::decode_utf8;
use vstd::utf8::encode_utf8;
use vstd::utf8::valid_utf8;

verus! {

/// The transient projection of a packet onto the fields an access request
/// needs; created per datagram and consumed within the same transaction.
struct AccessRequest {
    username: String,
    authenticator: Vec<u8>,
    hidden_password: Vec<u8>,
}

/// The first user-name attribute, if any; ordering is significant, the first
/// match wins.
pub open spec fn spec_find_username(attrs: Seq<AttributeModel>) -> Option<Seq<char>>
    decreases attrs.len(),
{
    if attrs.len() == 0 {
        None
    } else {
        match attrs[0] {
            AttributeModel::UserName(s) => Some(s),
            _ => spec_find_username(attrs.subrange(1, attrs.len() as int)),
        }
    }
}

/// The first user-password attribute, if any.
pub open spec fn spec_find_password(attrs: Seq<AttributeModel>) -> Option<Seq<u8>>
    decreases attrs.len(),
{
    if attrs.len() == 0 {
        None
    } else {
        match attrs[0] {
            AttributeModel::UserPassword(p) => Some(p),
            _ => spec_find_password(attrs.subrange(1, attrs.len() as int)),
        }
    }
}

/// Find the first user-name attribute in an attribute list.
fn find_username(attrs: &Vec<Attribute>) -> (r: Option<String>)
    ensures
        match r {
            Some(s) => spec_find_username(attrs.deep_view()) == Some(s@),
            None => spec_find_username(attrs.deep_view()) is None,
        },
{
    let ghost dv = attrs.deep_view();
    let mut i: usize = 0;
    proof {
        assert(dv.subrange(0, dv.len() as int) =~= dv);
    }
    while i < attrs.len()
        invariant
            i <= dv.len(),
            dv == attrs.deep_view(),
            dv.len() == attrs@.len(),
            spec_find_username(dv) == spec_find_username(dv.subrange(i as int, dv.len() as int)),
        decreases dv.len() - i,
    {
        let ghost sub = dv.subrange(i as int, dv.len() as int);
        match &attrs[i] {
            Attribute::UserName(s) => {
                return Some(s.clone());
            },
            _ => {},
        }
        i = i + 1;
        proof {
            assert(sub.subrange(1, sub.len() as int) =~= dv.subrange(i as int, dv.len() as int));
        }
    }
    proof {
        assert(dv.subrange(i as int, dv.len() as int) =~= Seq::<AttributeModel>::empty());
    }
    None
}

/// Find the first user-password attribute in an attribute list.
fn find_password(attrs: &Vec<Attribute>) -> (r: Option<Vec<u8>>)
    ensures
        match r {
            Some(p) => spec_find_password(attrs.deep_view()) == Some(p@),
            None => spec_find_password(attrs.deep_view()) is None,
        },
{
    let ghost dv = attrs.deep_view();
    let mut i: usize = 0;
    proof {
        assert(dv.subrange(0, dv.len() as int) =~= dv);
    }
    while i < attrs.len()
        invariant
            i <= dv.len(),
            dv == attrs.deep_view(),
            dv.len() == attrs@.len(),
            spec_find_password(dv) == spec_find_password(dv.subrange(i as int, dv.len() as int)),
        decreases dv.len() - i,
    {
        let ghost sub = dv.subrange(i as int, dv.len() as int);
        match &attrs[i] {
            Attribute::UserPassword(p) => {
                return Some(p.clone());
            },
            _ => {},
        }
        i = i + 1;
        proof {
            assert(sub.subrange(1, sub.len() as int) =~= dv.subrange(i as int, dv.len() as int));
        }
    }
    proof {
        assert(dv.subrange(i as int, dv.len() as int) =~= Seq::<AttributeModel>::empty());
    }
    None
}

/// The access-request projection of a packet: defined exactly when the code
/// is numerically an access request and both a user name and a user password
/// are present.
pub open spec fn spec_to_access_request(p: PacketModel) -> Option<(Seq<char>, Seq<u8>, Seq<u8>)> {
    if p.code.spec_byte() == 1 {
        match (spec_find_username(p.attributes), spec_find_password(p.attributes)) {
            (Some(username), Some(hidden)) => Some((username, p.authenticator, hidden)),
            _ => None,
        }
    } else {
        None
    }
}

/// Project a packet onto an access request, if it is one.
fn to_access_request(packet: &Packet) -> (r: Option<AccessRequest>)
    ensures
        match r {
            Some(a) => spec_to_access_request(packet@) == Some(
                (a.username@, a.authenticator@, a.hidden_password@),
            ),
            None => spec_to_access_request(packet@) is None,
        },
{
    if packet.code.to_byte() != 1 {
        return None;
    }
    let username = match find_username(&packet.attributes) {
        Some(u) => u,
        None => {
            return None;
        },
    };
    let hidden_password = match find_password(&packet.attributes) {
        Some(p) => p,
        None => {
            return None;
        },
    };
    Some(AccessRequest { username, authenticator: packet.authenticator.clone(), hidden_password })
}

/// The deterministic front half of processing: what parsing, projecting, and
/// unhiding recover from the raw bytes, namely the user name, the cleartext
/// password, the identifier, and the request authenticator.
pub open spec fn spec_prepare(secret: Seq<u8>, bytes: Seq<u8>) -> Option<
    (Seq<char>, Seq<char>, u8, Seq<u8>),
> {
    match spec_parse(bytes) {
        Ok(p) => match spec_to_access_request(p) {
            Some((username, auth, hidden)) => {
                let revealed = spec_unhide_bytes(secret, auth, hidden);
                if valid_utf8(revealed) {
                    Some((username, decode_utf8(revealed), p.identifier, auth))
                } else {
                    None
                }
            },
            None => None,
        },
        Err(_) => None,
    }
}

/// The exact bytes of the response to a request with the given identifier
/// and authenticator, for a given decision.
pub open spec fn spec_response_bytes(
    secret: Seq<u8>,
    identifier: u8,
    request_auth: Seq<u8>,
    accept: bool,
) -> Seq<u8> {
    let code = if accept {
        Code::AccessAccept
    } else {
        Code::AccessReject
    };
    seq![code.spec_byte(), identifier, 0u8, 20u8] + spec_response_auth(
        secret,
        code,
        identifier,
        20,
        request_auth,
    )
}

/// What one whole processing pass yields for a given decision: the response
/// bytes, or nothing where the datagram is dropped.
pub open spec fn spec_outcome(secret: Seq<u8>, bytes: Seq<u8>, accept: bool) -> Option<Seq<u8>> {
    match spec_prepare(secret, bytes) {
        Some((username, password, identifier, auth)) => Some(
            spec_response_bytes(secret, identifier, auth, accept),
        ),
        None => None,
    }
}

/// Receive a raw RADIUS packet and generate a response.
///
/// Malformed input, a packet that is not an access request, and a password
/// that does not decode are dropped silently; the response to everything
/// else is the serialized accept or reject packet, accept exactly when
/// `authenticate` accepted the recovered credentials.
pub fn process<F: Fn(&str, &str) -> bool>(secret: &str, packet: &[u8], authenticate: F) -> (r:
    Result<Option<Vec<u8>>, SerializeError>)
    requires
        forall|u: &str, p: &str| call_requires(authenticate, (u, p)),
    ensures
        r is Ok,
        spec_prepare(encode_utf8(secret@), packet@) is None ==> r == Ok::<
            Option<Vec<u8>>,
            SerializeError,
        >(None),
        spec_prepare(encode_utf8(secret@), packet@) matches Some(
            (username, password, identifier, auth),
        ) ==> exists|us: &str, ps: &str, accept: bool|
            us@ == username && ps@ == password && call_ensures(authenticate, (us, ps), accept) && (
            r matches Ok(o) && o matches Some(v) && v@ == spec_response_bytes(
                encode_utf8(secret@),
                identifier,
                auth,
                accept,
            )),
{
    let parsed = match parser::parse(packet) {
        Ok(p) => p,
        Err(_) => {
            return Ok(None);
        },
    };
    let access_request = match to_access_request(&parsed) {
        Some(a) => a,
        None => {
            return Ok(None);
        },
    };
    let password = match password::unhide(
        secret,
        access_request.authenticator.as_slice(),
        access_request.hidden_password.as_slice(),
    ) {
        Some(p) => p,
        None => {
            return Ok(None);
        },
    };
    let username_ref: &str = access_request.username.as_str();
    let password_ref: &str = password.as_str();
    let accepted = authenticate(username_ref, password_ref);
    let response = response::access_response(
        secret,
        &parsed,
        if accepted {
            response::Type::AuthSuccess
        } else {
            response::Type::AuthFailure
        },
    );
    match serialize::serialize(&response) {
        Ok(bytes) => {
            proof {
                assert(bytes@ =~= spec_response_bytes(
                    encode_utf8(secret@),
                    parsed@.identifier,
                    parsed@.authenticator,
                    accepted,
                ));
            }
            Ok(Some(bytes))
        },
        Err(e) => {
            proof {
                assert(false);
            }
            Err(e)
        },
    }
}

/// Idempotence: processing is a function of the secret, the bytes, and the
/// decision, so identical arguments and an identical (deterministic)
/// decision yield an identical outcome.
pub proof fn lemma_process_idempotent(
    secret: Seq<u8>,
    bytes: Seq<u8>,
    accept1: bool,
    accept2: bool,
)
    requires
        accept1 == accept2,
    ensures
        spec_outcome(secret, bytes, accept1) == spec_outcome(secret, bytes, accept2),
{
}

/// Correlation invariant: every produced response carries the request's
/// identifier in its identifier byte.
pub proof fn lemma_response_identifier(
    secret: Seq<u8>,
    identifier: u8,
    request_auth: Seq<u8>,
    accept: bool,
)
    ensures
        spec_response_bytes(secret, identifier, request_auth, accept)[1] == identifier,
{
}

/// Decision mapping: the response code byte is access-accept exactly when
/// the decision accepted, and access-reject otherwise.
pub proof fn lemma_decision_mapping(
    secret: Seq<u8>,
    identifier: u8,
    request_auth: Seq<u8>,
    accept: bool,
)
    ensures
        Code::spec_from_byte(spec_response_bytes(secret, identifier, request_auth, accept)[0])
            == if accept {
            Code::AccessAccept
        } else {
            Code::AccessReject
        },
{
}

/// A header-only response parses back to the packet it encodes: matching
/// code and identifier, the digest as its authenticator, and no attributes.
pub proof fn lemma_response_parses(code: Code, identifier: u8, digest: Seq<u8>)
    requires
        digest.len() == 16,
    ensures
        spec_parse(seq![code.spec_byte(), identifier, 0u8, 20u8] + digest) == Ok::<
            PacketModel,
            crate::error::ParseError,
        >(
            PacketModel {
                code: Code::spec_from_byte(code.spec_byte()),
                identifier: identifier,
                authenticator: digest,
                attributes: Seq::<AttributeModel>::empty(),
            },
        ),
{
    let bytes = seq![code.spec_byte(), identifier, 0u8, 20u8] + digest;
    assert(bytes.len() == 20);
    assert(crate::parser::spec_declared_len(bytes) == 20);
    assert(bytes.subrange(20, 20) =~= Seq::<u8>::empty());
    assert(bytes.subrange(4, 20) =~= digest);
    assert(crate::parser::spec_parse_attributes(Seq::<u8>::empty()) == Ok::<
        Seq<AttributeModel>,
        crate::error::ParseError,
    >(Seq::<AttributeModel>::empty()));
}

/// Malformed input drop: a buffer shorter than the 20-byte header, or one
/// whose declared length exceeds the bytes available, fails parsing as
/// truncated and produces no response.
pub proof fn lemma_malformed_drop(secret: Seq<u8>, bytes: Seq<u8>, accept: bool)
    requires
        bytes.len() < 20 || crate::parser::spec_declared_len(bytes) > bytes.len(),
    ensures
        spec_parse(bytes) == Err::<PacketModel, crate::error::ParseError>(
            crate::error::ParseError::Truncated,
        ),
        spec_outcome(secret, bytes, accept) is None,
{
}

} // verus!
