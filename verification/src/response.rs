//! Reading the status response from the connection. The decision of what to
//! read next is a function of the bytes received so far: the packet length,
//! the packet id (which must be 0), the length of the JSON text, then the text.

use vstd::prelude::*;
use crate::error::Error;
use crate::packet::{framed, low_32, string_field};
use crate::text::{push_signed_decimal, signed_decimal};
use crate::varint::{
    i32_from_bits, lemma_bits_roundtrip, lemma_read_prefix, read_varint_at, two_pow_32,
    varint_encoding, varint_read, VarIntRead,
};
use vstd::string::StringExecFns;
use vstd::utf8::{decode_utf8, valid_utf8};

verus! {

/// Why a status response cannot be read.
#[derive(Debug, Clone, Copy, PartialEq, Eq, Structural)]
pub enum FrameError {
    /// A variable-length integer ran past five bytes.
    VarIntTooBig,
    /// The response packet has an id other than 0.
    UnexpectedPacketId(i32),
    /// The JSON text is announced with a negative length.
    NegativeLength(i32),
}

/// Where reading a status response stands, as a mathematical value.
pub enum ResponseProgress {
    /// Read one more byte from the connection.
    NeedByte,
    /// Read exactly this many more bytes.
    NeedBytes(nat),
    /// The response is complete; these are the bytes of its JSON text.
    Complete(Seq<u8>),
    /// The response is malformed.
    Failed(FrameError),
}

/// What to do next while reading a status response.
#[derive(Debug)]
pub enum ReadAction {
    /// Read one more byte from the connection and add it to what was received.
    NeedByte,
    /// Read exactly this many more bytes and add them to what was received.
    NeedBytes(usize),
    /// The response is complete; these are the bytes of its JSON text.
    Complete(Vec<u8>),
    /// The response is malformed.
    Failed(FrameError),
}

impl View for ReadAction {
    type V = ResponseProgress;

    open spec fn view(&self) -> ResponseProgress {
        match self {
            ReadAction::NeedByte => ResponseProgress::NeedByte,
            ReadAction::NeedBytes(n) => ResponseProgress::NeedBytes(*n as nat),
            ReadAction::Complete(v) => ResponseProgress::Complete(v@),
            ReadAction::Failed(e) => ResponseProgress::Failed(*e),
        }
    }
}

/// Where reading stands once the JSON length is known: `rest` holds what came after it.
pub open spec fn payload_progress(rest: Seq<u8>, len: i32) -> ResponseProgress {
    if len < 0 {
        ResponseProgress::Failed(FrameError::NegativeLength(len))
    } else if rest.len() < len {
        ResponseProgress::NeedBytes((len - rest.len()) as nat)
    } else {
        ResponseProgress::Complete(rest.take(len as int))
    }
}

/// Where reading stands once the packet id is known: `rest` holds what came after it.
pub open spec fn after_id_progress(rest: Seq<u8>, id: i32) -> ResponseProgress {
    if id != 0 {
        ResponseProgress::Failed(FrameError::UnexpectedPacketId(id))
    } else {
        match varint_read(rest) {
            VarIntRead::Incomplete => ResponseProgress::NeedByte,
            VarIntRead::TooBig => ResponseProgress::Failed(FrameError::VarIntTooBig),
            VarIntRead::Value(len, n) => payload_progress(rest.skip(n as int), len),
        }
    }
}

/// Where reading stands once the packet length is read: `rest` holds what came after it.
pub open spec fn after_length_progress(rest: Seq<u8>) -> ResponseProgress {
    match varint_read(rest) {
        VarIntRead::Incomplete => ResponseProgress::NeedByte,
        VarIntRead::TooBig => ResponseProgress::Failed(FrameError::VarIntTooBig),
        VarIntRead::Value(id, n) => after_id_progress(rest.skip(n as int), id),
    }
}

/// Where reading a status response stands after `received`: the packet
/// length (read and not used), the packet id, the length of the JSON text,
/// each a variable-length integer, then that many bytes of text.
pub open spec fn response_progress(received: Seq<u8>) -> ResponseProgress {
    match varint_read(received) {
        VarIntRead::Incomplete => ResponseProgress::NeedByte,
        VarIntRead::TooBig => ResponseProgress::Failed(FrameError::VarIntTooBig),
        VarIntRead::Value(_, n) => after_length_progress(received.skip(n as int)),
    }
}

/// Copies `buf[from..from + len]`.
fn copy_range(buf: &[u8], from: usize, len: usize) -> (r: Vec<u8>)
    requires
        from + len <= buf@.len(),
    ensures
        r@ == buf@.subrange(from as int, from + len),
{
    let mut r: Vec<u8> = Vec::new();
    let total = buf.len();
    let mut i: usize = 0;
    while i < len
        invariant
            i <= len,
            from + len <= buf@.len(),
            total == buf@.len(),
            r@ == buf@.subrange(from as int, from + i),
        decreases len - i,
    {
        r.push(buf[from + i]);
        i = i + 1;
        assert(r@ =~= buf@.subrange(from as int, from + i));
    }
    r
}

/// Decides what to read next, given all bytes of the status response received so far.
pub fn next_read(received: &[u8]) -> (action: ReadAction)
    ensures
        action@ == response_progress(received@),
{
    let ghost all = received@;
    assert(all.skip(0) =~= all);
    let n1 = match read_varint_at(received, 0) {
        VarIntRead::Incomplete => return ReadAction::NeedByte,
        VarIntRead::TooBig => return ReadAction::Failed(FrameError::VarIntTooBig),
        VarIntRead::Value(_, n) => n,
    };
    let ghost rest1 = all.skip(n1 as int);
    let id_read = read_varint_at(received, n1);
    let (id, n2) = match id_read {
        VarIntRead::Incomplete => return ReadAction::NeedByte,
        VarIntRead::TooBig => return ReadAction::Failed(FrameError::VarIntTooBig),
        VarIntRead::Value(id, n) => (id, n),
    };
    if id != 0 {
        return ReadAction::Failed(FrameError::UnexpectedPacketId(id));
    }
    let at2 = n1 + n2;
    assert(rest1.skip(n2 as int) =~= all.skip(at2 as int));
    let (len, n3) = match read_varint_at(received, at2) {
        VarIntRead::Incomplete => return ReadAction::NeedByte,
        VarIntRead::TooBig => return ReadAction::Failed(FrameError::VarIntTooBig),
        VarIntRead::Value(len, n) => (len, n),
    };
    let at3 = at2 + n3;
    let ghost rest3 = all.skip(at3 as int);
    assert(all.skip(at2 as int).skip(n3 as int) =~= rest3);
    if len < 0 {
        return ReadAction::Failed(FrameError::NegativeLength(len));
    }
    let have = received.len() - at3;
    let want = len as usize;
    if have < want {
        return ReadAction::NeedBytes(want - have);
    }
    let payload = copy_range(received, at3, want);
    assert(payload@ =~= rest3.take(len as int));
    ReadAction::Complete(payload)
}


/// The message of the error that the query reports for a malformed response.
pub open spec fn frame_error_text(e: FrameError) -> Seq<char> {
    match e {
        FrameError::VarIntTooBig => "VarInt too big"@,
        FrameError::UnexpectedPacketId(id) => "Unexpected packet ID: "@ + signed_decimal(id as int),
        FrameError::NegativeLength(len) => "Negative JSON length: "@ + signed_decimal(len as int),
    }
}

/// The server error that reports a malformed response.
pub fn frame_error(e: FrameError) -> (r: Error)
    ensures
        r matches Error::ServerError(m) && m@ == frame_error_text(e),
{
    match e {
        FrameError::VarIntTooBig => Error::ServerError(String::from_str("VarInt too big")),
        FrameError::UnexpectedPacketId(id) => {
            let mut m = String::from_str("Unexpected packet ID: ");
            push_signed_decimal(&mut m, id as i64);
            Error::ServerError(m)
        },
        FrameError::NegativeLength(len) => {
            let mut m = String::from_str("Negative JSON length: ");
            push_signed_decimal(&mut m, len as i64);
            Error::ServerError(m)
        },
    }
}

/// The message that std's UTF-8 error displays for `bytes` that are not
/// valid UTF-8 (the length and position of the first bad sequence).
pub uninterp spec fn utf8_error_message(bytes: Seq<u8>) -> Seq<char>;

/// std's `String::from_utf8`. Claimed, as its documentation says: it succeeds
/// exactly when the bytes are valid UTF-8, and the string then holds the
/// characters that the bytes encode. On failure the error's displayed message
/// is returned, named `utf8_error_message` of the bytes (it depends on the
/// bytes alone).
#[verifier::external_body]
fn string_from_utf8(bytes: Vec<u8>) -> (r: Result<String, String>)
    ensures
        r is Ok <==> valid_utf8(bytes@),
        r matches Ok(s) ==> s@ == decode_utf8(bytes@),
        r matches Err(m) ==> m@ == utf8_error_message(bytes@),
{
    match String::from_utf8(bytes) {
        Ok(s) => Ok(s),
        Err(e) => Err(e.to_string()),
    }
}

/// The JSON text of a complete response: its bytes read as UTF-8.
pub fn json_text(payload: Vec<u8>) -> (r: Result<String, Error>)
    ensures
        r is Ok <==> valid_utf8(payload@),
        r matches Ok(s) ==> s@ == decode_utf8(payload@),
        r matches Err(e) ==> e matches Error::ServerError(m) && m@ == "Invalid UTF-8: "@
            + utf8_error_message(payload@),
{
    match string_from_utf8(payload) {
        Ok(s) => Ok(s),
        Err(detail) => {
            let mut m = String::from_str("Invalid UTF-8: ");
            m.append(detail.as_str());
            Err(Error::ServerError(m))
        },
    }
}

/// A status response as the server sends it, a packet holding id 0 and the
/// JSON text as a protocol string, is read to the end and gives back exactly
/// that text (for any text shorter than 2^31 bytes).
pub proof fn lemma_status_response_read(payload: Seq<u8>)
    requires
        payload.len() < 0x8000_0000,
    ensures
        response_progress(framed(varint_encoding(0) + string_field(payload)))
            == ResponseProgress::Complete(payload),
{
    let len = payload.len();
    let e_id = varint_encoding(0);
    let e_len = varint_encoding(low_32(len));
    let body = e_id + string_field(payload);
    let e_frame = varint_encoding(low_32(body.len()));
    let all = framed(body);
    assert(all =~= e_frame + body);
    lemma_bits_roundtrip(low_32(body.len()), body);
    assert(all.skip(e_frame.len() as int) =~= body);
    assert(body =~= e_id + (e_len + payload));
    lemma_bits_roundtrip(0, e_len + payload);
    assert(i32_from_bits(0) == 0);
    assert(body.skip(e_id.len() as int) =~= e_len + payload);
    assert(two_pow_32() as nat == 0x1_0000_0000nat);
    assert(len % 0x1_0000_0000nat == len);
    assert(low_32(len) == len);
    lemma_bits_roundtrip(len, payload);
    assert(i32_from_bits(len) == len as i32);
    assert((e_len + payload).skip(e_len.len() as int) =~= payload);
    assert(payload.take(len as int) =~= payload);
}

/// While a status response as the server sends it is still arriving, the
/// reader never rejects it nor takes it as complete: on every proper prefix
/// the decision is to read more (for any text shorter than 2^31 bytes).
pub proof fn lemma_status_response_prefix(payload: Seq<u8>, k: int)
    requires
        payload.len() < 0x8000_0000,
        0 <= k < framed(varint_encoding(0) + string_field(payload)).len(),
    ensures
        ({
            let p = response_progress(framed(varint_encoding(0) + string_field(payload)).take(k));
            p is NeedByte || p is NeedBytes
        }),
{
    let len = payload.len();
    let e_id = varint_encoding(0);
    let e_len = varint_encoding(low_32(len));
    let body = e_id + string_field(payload);
    let e_frame = varint_encoding(low_32(body.len()));
    let all = framed(body);
    let pre = all.take(k);
    assert(all =~= e_frame + body);
    lemma_bits_roundtrip(low_32(body.len()), body);
    lemma_read_prefix(all, k);
    let n1 = e_frame.len() as int;
    if k < n1 {
        return;
    }
    let rest1 = pre.skip(n1);
    assert(rest1 =~= body.take(k - n1));
    assert(body =~= e_id + (e_len + payload));
    lemma_bits_roundtrip(0, e_len + payload);
    assert(i32_from_bits(0) == 0);
    lemma_read_prefix(body, k - n1);
    let n2 = e_id.len() as int;
    if k - n1 < n2 {
        return;
    }
    let rest2 = rest1.skip(n2);
    let tail = e_len + payload;
    assert(body.skip(n2) =~= tail);
    assert(rest2 =~= tail.take(k - n1 - n2));
    assert(two_pow_32() as nat == 0x1_0000_0000nat);
    assert(len % 0x1_0000_0000nat == len);
    assert(low_32(len) == len);
    lemma_bits_roundtrip(len, payload);
    assert(i32_from_bits(len) == len as i32);
    lemma_read_prefix(tail, k - n1 - n2);
    let n3 = e_len.len() as int;
    if k - n1 - n2 < n3 {
        return;
    }
    let rest3 = rest2.skip(n3);
    assert(rest3 =~= payload.take(k - n1 - n2 - n3));
}

} // verus!
