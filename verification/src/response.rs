//! The response builder: given a validated access request and the outcome of
//! the authentication decision, it produces the response packet with its
//! keyed response authenticator.

use crate::digest::md5_digest;
use crate::digest::md5_of;
use crate::packet::AttributeModel;
use crate::packet::Code;
use crate::packet::Packet;
use vstd::prelude::*;
use vstd::utf8::encode_utf8;

verus! {

/// The outcome of the external authentication decision.
#[derive(Debug, Clone, Copy)]
pub enum Type {
    AuthSuccess,
    AuthFailure,
}

/// The response code an outcome maps to: accept on success, reject on
/// failure.
pub open spec fn spec_response_code(t: Type) -> Code {
    match t {
        Type::AuthSuccess => Code::AccessAccept,
        Type::AuthFailure => Code::AccessReject,
    }
}

/// The two big-endian bytes of a 16-bit length.
pub open spec fn spec_u16_be(v: u16) -> Seq<u8> {
    seq![(v / 256) as u8, (v % 256) as u8]
}

/// Split a 16-bit length into its two big-endian bytes.
pub(crate) fn u16_to_be(v: u16) -> (r: (u8, u8))
    ensures
        seq![r.0, r.1] == spec_u16_be(v),
{
    ((v / 256) as u8, (v % 256) as u8)
}

/// The response authenticator: the MD5 digest of code, identifier, length
/// (two big-endian bytes), the request authenticator, the response attribute
/// bytes (empty in this scope), and the shared secret, in that order.
pub open spec fn spec_response_auth(
    secret: Seq<u8>,
    code: Code,
    identifier: u8,
    length: u16,
    request_auth: Seq<u8>,
) -> Seq<u8> {
    md5_of(seq![code.spec_byte(), identifier] + spec_u16_be(length) + request_auth + secret)
}

/// Compute the response authenticator over the response header fields.
fn response_authenticator(
    secret: &str,
    code: Code,
    identifier: u8,
    length: u16,
    request_authenticator: &Vec<u8>,
) -> (r: Vec<u8>)
    ensures
        r@ == spec_response_auth(
            encode_utf8(secret@),
            code,
            identifier,
            length,
            request_authenticator@,
        ),
        r@.len() == 16,
{
    let mut data: Vec<u8> = Vec::new();
    data.push(code.to_byte());
    data.push(identifier);
    let (hi, lo) = u16_to_be(length);
    data.push(hi);
    data.push(lo);
    data.extend_from_slice(request_authenticator.as_slice());
    data.extend_from_slice(secret.as_bytes());
    proof {
        assert(data@ =~= seq![code.spec_byte(), identifier] + spec_u16_be(length)
            + request_authenticator@ + encode_utf8(secret@));
    }
    md5_digest(&data)
}

/// Create the response packet for an authentication request: the mapped
/// code, the request's identifier copied for correlation, no attributes, and
/// the response authenticator computed over the fixed 20-byte length.
pub fn access_response(secret: &str, request: &Packet, response_type: Type) -> (r: Packet)
    requires
        request@.code.spec_byte() == 1,
        request.wf(),
    ensures
        r@.code == spec_response_code(response_type),
        r@.identifier == request@.identifier,
        r@.attributes == Seq::<AttributeModel>::empty(),
        r@.authenticator == spec_response_auth(
            encode_utf8(secret@),
            spec_response_code(response_type),
            request@.identifier,
            20,
            request@.authenticator,
        ),
        r.wf(),
{
    let code = match response_type {
        Type::AuthSuccess => Code::AccessAccept,
        Type::AuthFailure => Code::AccessReject,
    };
    let header_len: u16 = 20;
    let authenticator = response_authenticator(
        secret,
        code,
        request.identifier,
        header_len,
        &request.authenticator,
    );
    let response = Packet {
        code,
        identifier: request.identifier,
        authenticator,
        attributes: Vec::new(),
    };
    proof {
        assert(response@.attributes =~= Seq::<AttributeModel>::empty());
    }
    response
}

} // verus!
