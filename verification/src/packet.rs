//! Packets of the server list ping: the handshake and the status request
//! that the query sends, each framed by its length.

use vstd::prelude::*;
use crate::varint::{
    i32_bits, i32_from_bits, i32_from_u32_bits, lemma_bits_roundtrip, two_pow_32, varint_encoding,
    varint_read, write_varint, VarIntRead,
};
use byteorder::{BigEndian, WriteBytesExt};
use vstd::string::StringSliceAdditionalSpecFns;

verus! {

/// The protocol number that the handshake announces.
pub const PROTOCOL_VERSION: i32 = 47;

/// The state that the handshake asks the server to enter next (status).
pub const NEXT_STATE_STATUS: i32 = 1;

/// `n` reduced to 32 bits, as `n as i32` and then `as u32` gives it.
pub open spec fn low_32(n: nat) -> nat {
    n % (two_pow_32() as nat)
}

/// A length below 2^32 is kept whole.
pub proof fn lemma_low_32_small(n: nat)
    requires
        n < 0x1_0000_0000,
    ensures
        low_32(n) == n,
{
    assert(two_pow_32() as nat == 0x1_0000_0000nat);
}

/// A packet as it goes on the wire: the length of its body, then the body.
pub open spec fn framed(body: Seq<u8>) -> Seq<u8> {
    varint_encoding(low_32(body.len())) + body
}

/// A string as the protocol writes it: its length in bytes, then its UTF-8 bytes.
pub open spec fn string_field(bytes: Seq<u8>) -> Seq<u8> {
    varint_encoding(low_32(bytes.len())) + bytes
}

/// The body of the handshake packet: packet id 0, the protocol number, the
/// host, the port in big-endian order, and the next state.
pub open spec fn handshake_body(host: Seq<u8>, port: u16) -> Seq<u8> {
    varint_encoding(0) + varint_encoding(PROTOCOL_VERSION as nat) + string_field(host) + seq![
        (port / 256) as u8,
        (port % 256) as u8,
    ] + varint_encoding(NEXT_STATE_STATUS as nat)
}

/// Appends `n`, high byte first, with byteorder's
/// `WriteBytesExt::write_u16::<BigEndian>`. Claimed: on a `Vec<u8>` that write
/// appends exactly the two big-endian bytes of `n` (its `write_all` on a vector
/// only extends it and never reports an error).
#[verifier::external_body]
fn write_u16_be(buf: &mut Vec<u8>, n: u16)
    ensures
        final(buf)@ == old(buf)@ + seq![(n / 256) as u8, (n % 256) as u8],
{
    let _ = buf.write_u16::<BigEndian>(n);
}

/// `n as i32` then `as u32`: the low 32 bits of a length.
fn length_bits(n: usize) -> (r: u32)
    ensures
        r as nat == low_32(n as nat),
{
    (n as u64 % 0x1_0000_0000u64) as u32
}

/// Appends all of `bytes` to `buf`.
fn append_bytes(buf: &mut Vec<u8>, bytes: &[u8])
    ensures
        final(buf)@ == old(buf)@ + bytes@,
{
    let ghost start = buf@;
    let mut i: usize = 0;
    while i < bytes.len()
        invariant
            i <= bytes@.len(),
            buf@ == start + bytes@.take(i as int),
        decreases bytes@.len() - i,
    {
        buf.push(bytes[i]);
        i = i + 1;
        assert(buf@ =~= start + bytes@.take(i as int));
    }
    assert(bytes@.take(i as int) =~= bytes@);
}

/// Appends `s` as the protocol writes a string: its byte length, then its bytes.
pub fn write_string(buf: &mut Vec<u8>, s: &str)
    ensures
        final(buf)@ == old(buf)@ + string_field(s.spec_bytes()),
{
    let bytes = s.as_bytes();
    let n = length_bits(bytes.len());
    let ghost mid = buf@;
    write_varint(buf, i32_from_u32_bits(n));
    proof {
        assert(i32_bits(i32_from_bits(n as nat)) == n as nat);
    }
    append_bytes(buf, bytes);
    assert(buf@ =~= mid + string_field(s.spec_bytes()));
}

/// Frames `data` for sending: its length (as a 32-bit number), then the data.
pub fn frame_packet(data: &[u8]) -> (packet: Vec<u8>)
    ensures
        packet@ == framed(data@),
{
    let mut packet: Vec<u8> = Vec::new();
    let n = length_bits(data.len());
    write_varint(&mut packet, i32_from_u32_bits(n));
    proof {
        assert(i32_bits(i32_from_bits(n as nat)) == n as nat);
    }
    append_bytes(&mut packet, data);
    assert(packet@ =~= framed(data@));
    packet
}

/// The framed handshake that opens a status query of `host` on `port`.
pub fn handshake_packet(host: &str, port: u16) -> (packet: Vec<u8>)
    ensures
        packet@ == framed(handshake_body(host.spec_bytes(), port)),
{
    let mut data: Vec<u8> = Vec::new();
    write_varint(&mut data, 0);
    write_varint(&mut data, PROTOCOL_VERSION);
    write_string(&mut data, host);
    write_u16_be(&mut data, port);
    write_varint(&mut data, NEXT_STATE_STATUS);
    assert(data@ =~= handshake_body(host.spec_bytes(), port));
    frame_packet(data.as_slice())
}

/// The framed status request: a body that is only packet id 0.
pub fn status_request_packet() -> (packet: Vec<u8>)
    ensures
        packet@ == framed(varint_encoding(0)),
        packet@ == seq![1u8, 0u8],
{
    let mut data: Vec<u8> = Vec::new();
    write_varint(&mut data, 0);
    let packet = frame_packet(data.as_slice());
    assert(varint_encoding(0) =~= seq![0u8]);
    assert(varint_encoding(1) =~= seq![1u8]);
    assert(varint_encoding(0).len() == 1);
    assert(1nat % (two_pow_32() as nat) == 1);
    assert(low_32(varint_encoding(0).len()) == 1);
    assert(framed(varint_encoding(0)) =~= seq![1u8, 0u8]);
    packet
}

/// Reading the length in front of a framed packet gives the body's length and
/// leaves exactly the body (for bodies shorter than 2^31 bytes).
pub proof fn lemma_frame_roundtrip(body: Seq<u8>)
    requires
        body.len() < 0x8000_0000,
    ensures
        varint_read(framed(body)) matches VarIntRead::Value(len, n) && len == body.len()
            && framed(body).skip(n as int) == body,
{
    lemma_low_32_small(body.len());
    lemma_bits_roundtrip(body.len(), body);
    assert(i32_from_bits(body.len()) == body.len() as i32);
    let e = varint_encoding(body.len());
    assert((e + body).skip(e.len() as int) =~= body);
}

/// The handshake body read back field by field: packet id 0, protocol 47,
/// then a string whose announced length is the host's byte length and whose
/// bytes are exactly all of the host's bytes, then the port high byte first,
/// then the next state 1, and nothing after it (for hosts shorter than 2^31
/// bytes).
pub proof fn lemma_handshake_fields(host: Seq<u8>, port: u16)
    requires
        host.len() < 0x8000_0000,
    ensures
        ({
            let b = handshake_body(host, port);
            &&& varint_read(b) == VarIntRead::Value(0, 1)
            &&& varint_read(b.skip(1)) == VarIntRead::Value(47, 1)
            &&& varint_read(b.skip(2)) matches VarIntRead::Value(n, k) && n == host.len()
                && b.subrange(2 + k, 2 + k + host.len()) == host
                && b[2 + k + host.len()] == (port / 256) as u8
                && b[2 + k + host.len() + 1] == (port % 256) as u8
                && varint_read(b.skip(2 + k + host.len() + 2)) == VarIntRead::Value(1, 1)
                && b.len() == 2 + k + host.len() + 3
        }),
{
    let b = handshake_body(host, port);
    let e0 = varint_encoding(0);
    let e47 = varint_encoding(PROTOCOL_VERSION as nat);
    let en = varint_encoding(low_32(host.len()));
    let e1 = varint_encoding(NEXT_STATE_STATUS as nat);
    let pb = seq![(port / 256) as u8, (port % 256) as u8];
    assert(e0 =~= seq![0u8]);
    assert(e47 =~= seq![47u8]);
    assert(e1 =~= seq![1u8]);
    lemma_low_32_small(host.len());
    let tail = en + host + pb + e1;
    assert(b =~= e0 + (e47 + tail));
    lemma_bits_roundtrip(0, e47 + tail);
    assert(i32_from_bits(0) == 0);
    assert(b.skip(1) =~= e47 + tail);
    lemma_bits_roundtrip(47, tail);
    assert(i32_from_bits(47) == 47);
    assert(b.skip(2) =~= en + (host + pb + e1));
    lemma_bits_roundtrip(host.len(), host + pb + e1);
    assert(i32_from_bits(host.len()) == host.len() as i32);
    let k = en.len() as int;
    assert(b.subrange(2 + k, 2 + k + host.len()) =~= host);
    let after = 2 + k + host.len() + 2;
    assert(b.skip(after) =~= e1 + Seq::<u8>::empty());
    lemma_bits_roundtrip(1, Seq::<u8>::empty());
    assert(i32_from_bits(1) == 1);
}

} // verus!
