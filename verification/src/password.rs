//! The RFC 2865 section 5.2 password hiding codec: a reversible XOR stream
//! keyed by an MD5 chain over the shared secret, the request authenticator,
//! and the preceding hidden block.

use crate::digest::md5_digest;
use crate::digest::md5_of;
use crate::packet::AUTHENTICATOR_LEN;
use vstd::prelude::*;
use vstd::utf8::decode_utf8;
use vstd::utf8::encode_utf8;
use vstd::utf8::valid_utf8;

verus! {

/// `chunk` XORed byte for byte with the prefix of `key` of the same length.
pub open spec fn xor_bytes(chunk: Seq<u8>, key: Seq<u8>) -> Seq<u8> {
    Seq::new(chunk.len(), |i: int| chunk[i] ^ key[i])
}

/// The revealing direction of the XOR stream over `hidden`, taken in 16-byte
/// blocks (the last may be shorter). `prev` seeds the key of the first block:
/// the request authenticator at the top call, the preceding hidden block
/// below it.
pub open spec fn spec_reveal_chunks(secret: Seq<u8>, prev: Seq<u8>, hidden: Seq<u8>) -> Seq<u8>
    decreases hidden.len(),
{
    if hidden.len() == 0 {
        Seq::<u8>::empty()
    } else {
        let n = if hidden.len() < 16 {
            hidden.len() as int
        } else {
            16
        };
        let chunk = hidden.subrange(0, n);
        xor_bytes(chunk, md5_of(secret + prev)) + spec_reveal_chunks(
            secret,
            chunk,
            hidden.subrange(n, hidden.len() as int),
        )
    }
}

/// The concealing direction of the XOR stream over `plain`: each produced
/// block seeds the key of the next one.
pub open spec fn spec_conceal_chunks(secret: Seq<u8>, prev: Seq<u8>, plain: Seq<u8>) -> Seq<u8>
    decreases plain.len(),
{
    if plain.len() == 0 {
        Seq::<u8>::empty()
    } else {
        let n = if plain.len() < 16 {
            plain.len() as int
        } else {
            16
        };
        let cipher = xor_bytes(plain.subrange(0, n), md5_of(secret + prev));
        cipher + spec_conceal_chunks(secret, cipher, plain.subrange(n, plain.len() as int))
    }
}

/// `s` with every trailing zero byte removed.
pub open spec fn spec_strip_zeros(s: Seq<u8>) -> Seq<u8>
    decreases s.len(),
{
    if s.len() == 0 {
        s
    } else if s[s.len() - 1] == 0 {
        spec_strip_zeros(s.subrange(0, s.len() - 1))
    } else {
        s
    }
}

/// The byte sequence that unhiding recovers: the revealed stream with its
/// zero padding stripped.
pub open spec fn spec_unhide_bytes(secret: Seq<u8>, auth: Seq<u8>, hidden: Seq<u8>) -> Seq<u8> {
    spec_strip_zeros(spec_reveal_chunks(secret, auth, hidden))
}

/// Remove any trailing zero bytes.
pub fn truncate_zero_padding(v: &mut Vec<u8>)
    ensures
        final(v)@ == spec_strip_zeros(old(v)@),
{
    while v.len() > 0 && v[v.len() - 1] == 0
        invariant
            spec_strip_zeros(v@) == spec_strip_zeros(old(v)@),
        decreases v.len(),
    {
        v.pop();
    }
}

/// Decode a hidden password according to the RADIUS specification, returning
/// the recovered text, or nothing when the recovered bytes are not UTF-8.
pub fn unhide(secret: &str, authenticator: &[u8], hidden: &[u8]) -> (r: Option<String>)
    requires
        authenticator@.len() == AUTHENTICATOR_LEN,
    ensures
        ({
            let revealed = spec_unhide_bytes(encode_utf8(secret@), authenticator@, hidden@);
            match r {
                Some(s) => valid_utf8(revealed) && s@ == decode_utf8(revealed),
                None => !valid_utf8(revealed),
            }
        }),
{
    let ghost secret_seq = encode_utf8(secret@);
    let mut revealed: Vec<u8> = Vec::new();
    let mut prev: Vec<u8> = Vec::new();
    prev.extend_from_slice(authenticator);
    let mut pos: usize = 0;
    proof {
        assert(vstd::slice::spec_slice_len(hidden) == hidden@.len());
        assert(prev@ =~= authenticator@);
        assert(hidden@.subrange(0, hidden@.len() as int) =~= hidden@);
        assert(revealed@ + spec_reveal_chunks(secret_seq, authenticator@, hidden@)
            =~= spec_reveal_chunks(secret_seq, authenticator@, hidden@));
    }
    while pos < hidden.len()
        invariant
            pos <= hidden@.len(),
            hidden@.len() <= usize::MAX,
            secret_seq == encode_utf8(secret@),
            spec_reveal_chunks(secret_seq, authenticator@, hidden@) == revealed@
                + spec_reveal_chunks(
                secret_seq,
                prev@,
                hidden@.subrange(pos as int, hidden@.len() as int),
            ),
        decreases hidden@.len() - pos,
    {
        let n: usize = if hidden.len() - pos < 16 {
            hidden.len() - pos
        } else {
            16
        };
        let ghost pos0 = pos as int;
        let ghost prev0 = prev@;
        let ghost revealed_before = revealed@;
        let mut key_input: Vec<u8> = Vec::new();
        key_input.extend_from_slice(secret.as_bytes());
        key_input.extend_from_slice(prev.as_slice());
        proof {
            assert(key_input@ =~= secret_seq + prev@);
        }
        let key = md5_digest(&key_input);
        let ghost chunk = hidden@.subrange(pos0, pos0 + n);
        let mut j: usize = 0;
        while j < n
            invariant
                j <= n,
                pos == pos0,
                pos + n <= hidden@.len(),
                hidden@.len() <= usize::MAX,
                n <= 16,
                key@ == md5_of(secret_seq + prev@),
                key@.len() == 16,
                chunk == hidden@.subrange(pos0, pos0 + n),
                revealed@ == revealed_before + xor_bytes(chunk, key@).subrange(0, j as int),
            decreases n - j,
        {
            let b = hidden[pos + j] ^ key[j];
            revealed.push(b);
            proof {
                assert(xor_bytes(chunk, key@).subrange(0, j + 1) =~= xor_bytes(
                    chunk,
                    key@,
                ).subrange(0, j as int).push(b));
            }
            j += 1;
        }
        let mut next_prev: Vec<u8> = Vec::new();
        next_prev.extend_from_slice(&hidden[pos..pos + n]);
        prev = next_prev;
        pos = pos + n;
        proof {
            let rest = hidden@.subrange(pos0, hidden@.len() as int);
            assert(rest.len() == hidden@.len() - pos0);
            assert(chunk =~= rest.subrange(0, n as int));
            assert(hidden@.subrange(pos as int, hidden@.len() as int) =~= rest.subrange(
                n as int,
                rest.len() as int,
            ));
            assert(xor_bytes(chunk, key@).subrange(0, n as int) =~= xor_bytes(chunk, key@));
            assert(prev@ == chunk);
            assert(spec_reveal_chunks(secret_seq, prev0, rest) == xor_bytes(chunk, key@)
                + spec_reveal_chunks(secret_seq, chunk, rest.subrange(n as int, rest.len() as int)));
            assert(revealed_before + (xor_bytes(chunk, key@) + spec_reveal_chunks(
                secret_seq,
                chunk,
                rest.subrange(n as int, rest.len() as int),
            )) =~= (revealed_before + xor_bytes(chunk, key@)) + spec_reveal_chunks(
                secret_seq,
                chunk,
                rest.subrange(n as int, rest.len() as int),
            ));
        }
    }
    proof {
        assert(hidden@.subrange(pos as int, hidden@.len() as int) =~= Seq::<u8>::empty());
        assert(spec_reveal_chunks(secret_seq, prev@, Seq::<u8>::empty()) =~= Seq::<u8>::empty());
        assert(revealed@ =~= spec_reveal_chunks(secret_seq, authenticator@, hidden@));
    }
    truncate_zero_padding(&mut revealed);
    crate::text::utf8_to_string(revealed)
}

/// Hide a cleartext password according to the RADIUS specification: the
/// obfuscation direction symmetric to `unhide`.
pub fn conceal(secret: &str, authenticator: &[u8], password: &str) -> (r: Vec<u8>)
    requires
        authenticator@.len() == AUTHENTICATOR_LEN,
    ensures
        r@ == spec_conceal_chunks(encode_utf8(secret@), authenticator@, encode_utf8(password@)),
{
    let ghost secret_seq = encode_utf8(secret@);
    let plain: &[u8] = password.as_bytes();
    let mut hidden: Vec<u8> = Vec::new();
    let mut prev: Vec<u8> = Vec::new();
    prev.extend_from_slice(authenticator);
    let mut pos: usize = 0;
    proof {
        assert(vstd::slice::spec_slice_len(plain) == plain@.len());
        assert(prev@ =~= authenticator@);
        assert(plain@.subrange(0, plain@.len() as int) =~= plain@);
        assert(hidden@ + spec_conceal_chunks(secret_seq, authenticator@, plain@)
            =~= spec_conceal_chunks(secret_seq, authenticator@, plain@));
    }
    while pos < plain.len()
        invariant
            pos <= plain@.len(),
            plain@.len() <= usize::MAX,
            secret_seq == encode_utf8(secret@),
            plain@ == encode_utf8(password@),
            spec_conceal_chunks(secret_seq, authenticator@, plain@) == hidden@
                + spec_conceal_chunks(
                secret_seq,
                prev@,
                plain@.subrange(pos as int, plain@.len() as int),
            ),
        decreases plain@.len() - pos,
    {
        let n: usize = if plain.len() - pos < 16 {
            plain.len() - pos
        } else {
            16
        };
        let ghost pos0 = pos as int;
        let ghost prev0 = prev@;
        let ghost hidden0 = hidden@;
        let mut key_input: Vec<u8> = Vec::new();
        key_input.extend_from_slice(secret.as_bytes());
        key_input.extend_from_slice(prev.as_slice());
        proof {
            assert(key_input@ =~= secret_seq + prev@);
        }
        let key = md5_digest(&key_input);
        let ghost chunk = plain@.subrange(pos0, pos0 + n);
        let mut cipher: Vec<u8> = Vec::new();
        let mut j: usize = 0;
        while j < n
            invariant
                j <= n,
                pos == pos0,
                pos + n <= plain@.len(),
                plain@.len() <= usize::MAX,
                n <= 16,
                key@ == md5_of(secret_seq + prev@),
                key@.len() == 16,
                chunk == plain@.subrange(pos0, pos0 + n),
                cipher@ == xor_bytes(chunk, key@).subrange(0, j as int),
            decreases n - j,
        {
            let b = plain[pos + j] ^ key[j];
            cipher.push(b);
            proof {
                assert(xor_bytes(chunk, key@).subrange(0, j + 1) =~= xor_bytes(
                    chunk,
                    key@,
                ).subrange(0, j as int).push(b));
            }
            j += 1;
        }
        proof {
            assert(cipher@ =~= xor_bytes(chunk, key@));
        }
        let mut next_prev: Vec<u8> = Vec::new();
        next_prev.extend_from_slice(cipher.as_slice());
        hidden.append(&mut cipher);
        prev = next_prev;
        pos = pos + n;
        proof {
            let rest = plain@.subrange(pos0, plain@.len() as int);
            let c = xor_bytes(chunk, key@);
            assert(rest.len() == plain@.len() - pos0);
            assert(chunk =~= rest.subrange(0, n as int));
            assert(plain@.subrange(pos as int, plain@.len() as int) =~= rest.subrange(
                n as int,
                rest.len() as int,
            ));
            assert(prev@ == c);
            assert(hidden@ == hidden0 + c);
            assert(spec_conceal_chunks(secret_seq, prev0, rest) == c + spec_conceal_chunks(
                secret_seq,
                c,
                rest.subrange(n as int, rest.len() as int),
            ));
            assert(hidden0 + (c + spec_conceal_chunks(
                secret_seq,
                c,
                rest.subrange(n as int, rest.len() as int),
            )) =~= (hidden0 + c) + spec_conceal_chunks(
                secret_seq,
                c,
                rest.subrange(n as int, rest.len() as int),
            ));
        }
    }
    proof {
        assert(plain@.subrange(pos as int, plain@.len() as int) =~= Seq::<u8>::empty());
        assert(hidden@ =~= spec_conceal_chunks(secret_seq, authenticator@, plain@));
    }
    hidden
}

/// XOR with the same byte twice gives the original byte back.
proof fn lemma_xor_involution(a: u8, b: u8)
    ensures
        (a ^ b) ^ b == a,
{
    assert((a ^ b) ^ b == a) by (bit_vector);
}

/// Concealing keeps the length of its input.
proof fn lemma_conceal_len(secret: Seq<u8>, prev: Seq<u8>, plain: Seq<u8>)
    ensures
        spec_conceal_chunks(secret, prev, plain).len() == plain.len(),
    decreases plain.len(),
{
    if plain.len() != 0 {
        let n = if plain.len() < 16 {
            plain.len() as int
        } else {
            16
        };
        let cipher = xor_bytes(plain.subrange(0, n), md5_of(secret + prev));
        lemma_conceal_len(secret, cipher, plain.subrange(n, plain.len() as int));
    }
}

/// Revealing undoes concealing block by block, for any seed of the chain.
proof fn lemma_reveal_conceal_chunks(secret: Seq<u8>, prev: Seq<u8>, plain: Seq<u8>)
    ensures
        spec_reveal_chunks(secret, prev, spec_conceal_chunks(secret, prev, plain)) == plain,
    decreases plain.len(),
{
    if plain.len() == 0 {
        assert(spec_reveal_chunks(secret, prev, spec_conceal_chunks(secret, prev, plain))
            =~= plain);
    } else {
        let n = if plain.len() < 16 {
            plain.len() as int
        } else {
            16
        };
        let key = md5_of(secret + prev);
        let chunk = plain.subrange(0, n);
        let cipher = xor_bytes(chunk, key);
        let rest = plain.subrange(n, plain.len() as int);
        let hidden = spec_conceal_chunks(secret, prev, plain);
        lemma_conceal_len(secret, cipher, rest);
        assert(hidden == cipher + spec_conceal_chunks(secret, cipher, rest));
        assert(hidden.len() == n + rest.len());
        assert(hidden.subrange(0, n) =~= cipher);
        assert(hidden.subrange(n, hidden.len() as int) =~= spec_conceal_chunks(
            secret,
            cipher,
            rest,
        ));
        assert forall|i: int| 0 <= i < n implies xor_bytes(cipher, key)[i] == chunk[i] by {
            lemma_xor_involution(chunk[i], key[i]);
        }
        assert(xor_bytes(cipher, key) =~= chunk);
        lemma_reveal_conceal_chunks(secret, cipher, rest);
        assert(spec_reveal_chunks(secret, prev, hidden) =~= chunk + rest);
        assert(chunk + rest =~= plain);
    }
}

/// Stripping zero padding leaves a sequence without trailing zeros alone.
proof fn lemma_strip_zeros_noop(s: Seq<u8>)
    requires
        s.len() > 0 ==> s[s.len() - 1] != 0,
    ensures
        spec_strip_zeros(s) == s,
{
}

/// Unhiding reverses hiding: for any secret, any 16-byte authenticator, and
/// any plaintext that does not end in a zero byte, concealing and then
/// revealing with zero padding stripped gives the plaintext back.
pub proof fn lemma_unhide_bytes_round_trip(secret: Seq<u8>, auth: Seq<u8>, plain: Seq<u8>)
    requires
        auth.len() == 16,
        plain.len() > 0 ==> plain[plain.len() - 1] != 0,
    ensures
        spec_unhide_bytes(secret, auth, spec_conceal_chunks(secret, auth, plain)) == plain,
{
    lemma_reveal_conceal_chunks(secret, auth, plain);
    lemma_strip_zeros_noop(plain);
}

/// Unhiding reverses hiding at the level of text: for any secret, any 16-byte
/// authenticator, and any password whose encoding does not end in a zero
/// byte, the bytes `hide` produces decode back to exactly that password.
pub proof fn lemma_unhide_hide_round_trip(secret: Seq<char>, auth: Seq<u8>, password: Seq<char>)
    requires
        auth.len() == 16,
        encode_utf8(password).len() > 0 ==> encode_utf8(password)[encode_utf8(password).len() - 1]
            != 0,
    ensures
        ({
            let recovered = spec_unhide_bytes(
                encode_utf8(secret),
                auth,
                spec_conceal_chunks(encode_utf8(secret), auth, encode_utf8(password)),
            );
            valid_utf8(recovered) && decode_utf8(recovered) == password
        }),
{
    broadcast use vstd::utf8::encode_utf8_valid_utf8;
    broadcast use vstd::utf8::encode_utf8_decode_utf8;

    lemma_unhide_bytes_round_trip(encode_utf8(secret), auth, encode_utf8(password));
}

} // verus!
