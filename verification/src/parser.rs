//! The RADIUS packet parser: a single forward pass over the raw bytes with a
//! bounds check at every read. The first error terminates the whole parse;
//! no partial packet is ever returned.

use crate::error::ParseError;
use crate::packet::Attribute;
use crate::packet::AttributeModel;
use crate::packet::Code;
use crate::packet::Packet;
use crate::packet::PacketModel;
use vstd::prelude::*;
use vstd::utf8::decode_utf8;
use vstd::utf8::valid_utf8;

verus! {

/// The declared packet length: bytes 2 and 3, big-endian.
pub open spec fn spec_declared_len(bytes: Seq<u8>) -> int
    recommends
        bytes.len() >= 4,
{
    bytes[2] * 256 + bytes[3]
}

/// One attribute value decoded by its type byte: type 1 is text and must be
/// UTF-8, type 2 is the opaque hidden password, everything else passes
/// through opaquely.
pub open spec fn spec_decode_attribute(t: u8, value: Seq<u8>) -> Result<
    AttributeModel,
    ParseError,
> {
    if t == 1 {
        if valid_utf8(value) {
            Ok(AttributeModel::UserName(decode_utf8(value)))
        } else {
            Err(ParseError::InvalidText)
        }
    } else if t == 2 {
        Ok(AttributeModel::UserPassword(value))
    } else {
        Ok(AttributeModel::Unknown(t, value))
    }
}

/// The attribute region parsed front to back: type byte, length byte
/// (covering both header bytes), value. A region exhausted exactly at a
/// boundary is success; a partial trailing attribute is an error.
pub open spec fn spec_parse_attributes(region: Seq<u8>) -> Result<Seq<AttributeModel>, ParseError>
    decreases region.len(),
{
    if region.len() == 0 {
        Ok(Seq::<AttributeModel>::empty())
    } else if region.len() < 2 {
        Err(ParseError::InvalidAttribute)
    } else {
        let alen = region[1] as int;
        if alen < 2 || region.len() < alen {
            Err(ParseError::InvalidAttribute)
        } else {
            match spec_decode_attribute(region[0], region.subrange(2, alen)) {
                Ok(a) => match spec_parse_attributes(region.subrange(alen, region.len() as int)) {
                    Ok(rest) => Ok(seq![a] + rest),
                    Err(e) => Err(e),
                },
                Err(e) => Err(e),
            }
        }
    }
}

/// The whole packet parsed from raw bytes: header, declared-length checks,
/// then the attribute region. Bytes beyond the declared length are ignored.
pub open spec fn spec_parse(bytes: Seq<u8>) -> Result<PacketModel, ParseError> {
    if bytes.len() < 20 {
        Err(ParseError::Truncated)
    } else {
        let declared = spec_declared_len(bytes);
        if declared < 20 {
            Err(ParseError::InvalidLength)
        } else if bytes.len() < declared {
            Err(ParseError::Truncated)
        } else {
            match spec_parse_attributes(bytes.subrange(20, declared)) {
                Ok(attrs) => Ok(
                    PacketModel {
                        code: Code::spec_from_byte(bytes[0]),
                        identifier: bytes[1],
                        authenticator: bytes.subrange(4, 20),
                        attributes: attrs,
                    },
                ),
                Err(e) => Err(e),
            }
        }
    }
}

/// Parse the attribute region of a packet.
fn parse_attributes(region: &[u8]) -> (r: Result<Vec<Attribute>, ParseError>)
    ensures
        match r {
            Ok(attrs) => spec_parse_attributes(region@) == Ok::<_, ParseError>(attrs.deep_view()),
            Err(e) => spec_parse_attributes(region@) == Err::<Seq<AttributeModel>, _>(e),
        },
{
    let mut attrs: Vec<Attribute> = Vec::new();
    let mut pos: usize = 0;
    proof {
        assert(vstd::slice::spec_slice_len(region) == region@.len());
        assert(region@.subrange(0, region@.len() as int) =~= region@);
    }
    while pos < region.len()
        invariant
            pos <= region@.len(),
            region@.len() <= usize::MAX,
            spec_parse_attributes(region@) == match spec_parse_attributes(
                region@.subrange(pos as int, region@.len() as int),
            ) {
                Ok(rest) => Ok::<_, ParseError>(attrs.deep_view() + rest),
                Err(e) => Err::<Seq<AttributeModel>, _>(e),
            },
        decreases region@.len() - pos,
    {
        let ghost sub = region@.subrange(pos as int, region@.len() as int);
        if region.len() - pos < 2 {
            return Err(ParseError::InvalidAttribute);
        }
        let t = region[pos];
        let alen = region[pos + 1] as usize;
        if alen < 2 || region.len() - pos < alen {
            return Err(ParseError::InvalidAttribute);
        }
        let mut value: Vec<u8> = Vec::new();
        value.extend_from_slice(&region[pos + 2..pos + alen]);
        proof {
            assert(value@ =~= sub.subrange(2, alen as int));
        }
        let attr = if t == 1 {
            match crate::text::utf8_to_string(value) {
                Some(s) => Attribute::UserName(s),
                None => {
                    return Err(ParseError::InvalidText);
                },
            }
        } else if t == 2 {
            Attribute::UserPassword(value)
        } else {
            Attribute::Unknown(t, value)
        };
        let ghost attrs0 = attrs.deep_view();
        attrs.push(attr);
        pos = pos + alen;
        proof {
            let rest_region = region@.subrange(pos as int, region@.len() as int);
            assert(rest_region =~= sub.subrange(alen as int, sub.len() as int));
            assert(spec_decode_attribute(sub[0], sub.subrange(2, alen as int)) == Ok::<
                _,
                ParseError,
            >(attr.deep_view()));
            assert(attrs.deep_view() =~= attrs0.push(attr.deep_view()));
            assert(attrs0 + (seq![attr.deep_view()] + spec_parse_attributes(
                rest_region,
            ) ->Ok_0) =~= attrs.deep_view() + spec_parse_attributes(rest_region)->Ok_0);
        }
    }
    proof {
        assert(region@.subrange(pos as int, region@.len() as int) =~= Seq::<u8>::empty());
        assert(attrs.deep_view() + Seq::<AttributeModel>::empty() =~= attrs.deep_view());
    }
    Ok(attrs)
}

/// Parse a RADIUS packet.
pub fn parse(i: &[u8]) -> (r: Result<Packet, ParseError>)
    ensures
        match r {
            Ok(p) => spec_parse(i@) == Ok::<_, ParseError>(p@) && p.wf(),
            Err(e) => spec_parse(i@) == Err::<PacketModel, _>(e),
        },
{
    if i.len() < 20 {
        return Err(ParseError::Truncated);
    }
    let code = Code::from_byte(i[0]);
    let identifier = i[1];
    let declared: usize = (i[2] as usize) * 256 + (i[3] as usize);
    proof {
        assert(declared == spec_declared_len(i@));
    }
    if declared < 20 {
        return Err(ParseError::InvalidLength);
    }
    if i.len() < declared {
        return Err(ParseError::Truncated);
    }
    let mut authenticator: Vec<u8> = Vec::new();
    authenticator.extend_from_slice(&i[4..20]);
    proof {
        assert(authenticator@ =~= i@.subrange(4, 20));
    }
    let region = &i[20..declared];
    let attributes = match parse_attributes(region) {
        Ok(attrs) => attrs,
        Err(e) => {
            return Err(e);
        },
    };
    let packet = Packet { code, identifier, authenticator, attributes };
    proof {
        assert(spec_parse(i@) matches Ok(pm) && pm == packet@);
    }
    Ok(packet)
}

} // verus!
