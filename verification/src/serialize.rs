//! The serializer: a packet encoded back into its wire bytes. Attribute
//! encoding is a declared stub, so only attribute-free packets encode.

use crate::error::SerializeError;
use crate::packet::Attribute;
use crate::packet::Packet;
use crate::packet::PacketModel;
use crate::response::u16_to_be;
use vstd::prelude::*;

verus! {

/// What serializing a packet yields: attribute encoding is intentionally
/// unimplemented, so a packet with attributes is refused; otherwise the
/// result is the 20-byte header with the total length fixed at 20.
pub open spec fn spec_serialize(p: PacketModel) -> Result<Seq<u8>, SerializeError> {
    if p.attributes.len() > 0 {
        Err(SerializeError::NotImplemented)
    } else {
        Ok(seq![p.code.spec_byte(), p.identifier, 0u8, 20u8] + p.authenticator)
    }
}

/// Encode one attribute to its wire form. Intentionally a stub: it refuses
/// every attribute rather than silently producing wrong bytes.
fn serialize_attribute(attribute: &Attribute) -> (r: Result<Vec<u8>, SerializeError>)
    ensures
        r == Err::<Vec<u8>, SerializeError>(SerializeError::NotImplemented),
{
    Err(SerializeError::NotImplemented)
}

/// Serialize a RADIUS packet to a byte vector.
///
/// This operation fails on a packet whose attributes cannot be encoded or
/// whose encoding would exceed the 16-bit wire length field.
pub fn serialize(packet: &Packet) -> (r: Result<Vec<u8>, SerializeError>)
    requires
        packet.wf(),
    ensures
        match r {
            Ok(encoded) => spec_serialize(packet@) == Ok::<_, SerializeError>(encoded@)
                && encoded@.len() == 20,
            Err(e) => spec_serialize(packet@) == Err::<Seq<u8>, _>(e),
        },
{
    let mut attribute_blob: Vec<u8> = Vec::new();
    let mut idx: usize = 0;
    while idx < packet.attributes.len()
        invariant
            idx == 0,
            attribute_blob@ == Seq::<u8>::empty(),
        decreases packet.attributes@.len() - idx,
    {
        match serialize_attribute(&packet.attributes[idx]) {
            Ok(mut bytes) => {
                attribute_blob.append(&mut bytes);
                idx = idx + 1;
            },
            Err(e) => {
                return Err(e);
            },
        }
    }
    let total: usize = 20 + attribute_blob.len();
    if total > 65535 {
        // Unreachable while attribute encoding is a stub: the blob is empty.
        return Err(SerializeError::TooLarge);
    }
    let mut encoded: Vec<u8> = Vec::new();
    encoded.push(packet.code.to_byte());
    encoded.push(packet.identifier);
    let (hi, lo) = u16_to_be(total as u16);
    encoded.push(hi);
    encoded.push(lo);
    encoded.extend_from_slice(packet.authenticator.as_slice());
    encoded.extend_from_slice(attribute_blob.as_slice());
    proof {
        assert(encoded@ =~= seq![
            packet@.code.spec_byte(),
            packet@.identifier,
            0u8,
            20u8,
        ] + packet@.authenticator);
    }
    Ok(encoded)
}

/// Length bound: a well-formed header-only packet always serializes, to
/// exactly the 20 header bytes.
pub proof fn lemma_serialize_header_only(p: PacketModel)
    requires
        p.wf(),
        p.attributes.len() == 0,
    ensures
        spec_serialize(p) matches Ok(bytes) && bytes.len() == 20,
{
}

} // verus!
