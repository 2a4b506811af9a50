//! The protocol's variable-length integers: seven bits per byte, least
//! significant group first, the high bit of a byte set while more follow.

use vstd::prelude::*;

verus! {

/// 2^32, the number of values a 32-bit integer can take.
pub open spec fn two_pow_32() -> int {
    0x1_0000_0000
}

/// The bits of `v` read as an unsigned 32-bit number (what `v as u32` gives).
pub open spec fn i32_bits(v: i32) -> nat {
    if v >= 0 {
        v as nat
    } else {
        (v + two_pow_32()) as nat
    }
}

/// The signed 32-bit number with the bits `x` (what `x as i32` gives), for `x < 2^32`.
pub open spec fn i32_from_bits(x: nat) -> i32 {
    if x < 0x8000_0000 {
        x as i32
    } else {
        (x - two_pow_32()) as i32
    }
}

/// The bytes that encode `v`.
pub open spec fn varint_encoding(v: nat) -> Seq<u8>
    decreases v,
{
    if v < 128 {
        seq![v as u8]
    } else {
        seq![(v % 128 + 128) as u8] + varint_encoding(v / 128)
    }
}

/// The number that the low seven bits of `bytes` spell, least significant group first.
pub open spec fn varint_sum(bytes: Seq<u8>) -> nat
    decreases bytes.len(),
{
    if bytes.len() == 0 {
        0
    } else {
        (bytes[0] % 128) as nat + 128 * varint_sum(bytes.drop_first())
    }
}

/// How many bytes at the front of `buf` have their high bit set.
pub open spec fn continuation_run(buf: Seq<u8>) -> nat
    decreases buf.len(),
{
    if buf.len() == 0 || buf[0] < 128 {
        0
    } else {
        1 + continuation_run(buf.drop_first())
    }
}

/// What reading a variable-length integer from the front of a byte source
/// gives: the value and the number of bytes it took, or that the source ended
/// first, or that a sixth byte was read.
#[derive(Debug, Clone, Copy, PartialEq, Eq, Structural)]
pub enum VarIntRead {
    /// The number, and how many bytes it took.
    Value(i32, usize),
    /// The bytes ended before the number did.
    Incomplete,
    /// A sixth byte was read.
    TooBig,
}

/// The outcome of reading a variable-length integer from the front of `buf`:
/// bytes are taken one by one; a byte with the high bit clear ends the number;
/// taking a sixth byte is an error, whatever that byte holds.
pub open spec fn varint_read(buf: Seq<u8>) -> VarIntRead {
    let c = continuation_run(buf);
    if c >= 5 && buf.len() >= 6 {
        VarIntRead::TooBig
    } else if c < 5 && c < buf.len() {
        VarIntRead::Value(
            i32_from_bits(varint_sum(buf.take(c as int + 1)) % (two_pow_32() as nat)),
            (c + 1) as usize,
        )
    } else {
        VarIntRead::Incomplete
    }
}

/// 128 to the power `n`.
pub open spec fn pow128(n: nat) -> nat
    decreases n,
{
    if n == 0 {
        1
    } else {
        128 * pow128((n - 1) as nat)
    }
}

proof fn lemma_sum_push(bytes: Seq<u8>, b: u8)
    ensures
        varint_sum(bytes.push(b)) == varint_sum(bytes) + (b % 128) as nat * pow128(bytes.len()),
    decreases bytes.len(),
{
    let k = (b % 128) as nat;
    if bytes.len() == 0 {
        assert(bytes.push(b).drop_first() =~= Seq::<u8>::empty());
        assert(varint_sum(bytes.push(b)) == k + 128 * varint_sum(Seq::<u8>::empty()));
        assert(pow128(0) == 1);
    } else {
        assert(bytes.push(b).drop_first() =~= bytes.drop_first().push(b));
        assert(bytes.push(b)[0] == bytes[0]);
        lemma_sum_push(bytes.drop_first(), b);
        let p = pow128((bytes.len() - 1) as nat);
        assert(pow128(bytes.len()) == 128 * p);
        assert(128 * (varint_sum(bytes.drop_first()) + k * p) == 128 * varint_sum(bytes.drop_first())
            + k * (128 * p)) by (nonlinear_arith);
    }
}

proof fn lemma_run_at_least(buf: Seq<u8>, i: int)
    requires
        0 <= i <= buf.len(),
        forall|j: int| 0 <= j < i ==> buf[j] >= 128,
    ensures
        continuation_run(buf) >= i,
        i < buf.len() && buf[i] < 128 ==> continuation_run(buf) == i,
    decreases i,
{
    if i > 0 {
        lemma_run_at_least(buf.drop_first(), i - 1);
    }
}

proof fn lemma_pow128_bound(n: nat)
    requires
        n <= 5,
    ensures
        1 <= pow128(n) <= 0x8_0000_0000,
{
    reveal_with_fuel(pow128, 6);
}

/// The bytes of `v`'s encoding spell `v`, each byte but the last has its high
/// bit set, and a number below 128^k takes at most k bytes.
pub proof fn lemma_encoding_shape(v: nat, rest: Seq<u8>, k: nat)
    ensures
        varint_sum(varint_encoding(v)) == v,
        1 <= varint_encoding(v).len(),
        1 <= k && v < pow128(k) ==> varint_encoding(v).len() <= k,
        continuation_run(varint_encoding(v) + rest) == varint_encoding(v).len() - 1,
        (varint_encoding(v) + rest).take(varint_encoding(v).len() as int) =~= varint_encoding(v),
    decreases v,
{
    let e = varint_encoding(v);
    if v < 128 {
        assert(e.drop_first() =~= Seq::<u8>::empty());
        assert((e + rest)[0] == v as u8);
        assert(varint_sum(e) == (v as u8 % 128) as nat + 128 * varint_sum(e.drop_first()));
    } else {
        let t = varint_encoding(v / 128);
        if k >= 2 && v < pow128(k) {
            assert(pow128(k) == 128 * pow128((k - 1) as nat));
            assert(v / 128 < pow128((k - 1) as nat)) by (nonlinear_arith)
                requires v < 128 * pow128((k - 1) as nat);
        }
        if k == 1 {
            assert(pow128(1) == 128 * pow128(0));
            assert(pow128(0) == 1);
        }
        lemma_encoding_shape(v / 128, rest, (k - 1) as nat);
        assert(e.drop_first() =~= t);
        assert((e + rest).drop_first() =~= t + rest);
        let first = (v % 128 + 128) as u8;
        assert(e[0] == first);
        assert((e + rest)[0] == first);
        assert(first % 128 == v % 128);
        assert(v == v % 128 + 128 * (v / 128));
    }
}

/// Appends the encoding of the 32-bit pattern `value` to `buf`.
fn write_varint_bits(buf: &mut Vec<u8>, value: u32)
    ensures
        final(buf)@ == old(buf)@ + varint_encoding(value as nat),
{
    let ghost start = buf@;
    let mut value = value;
    let ghost whole = value as nat;
    loop
        invariant_except_break
            buf@ + varint_encoding(value as nat) == start + varint_encoding(whole),
        ensures
            buf@ == start + varint_encoding(whole),
        decreases value,
    {
        let ghost before = buf@;
        let ghost v0 = value;
        assert(value & 0x7f == value % 128) by (bit_vector);
        assert(value >> 7 == value / 128) by (bit_vector);
        let mut temp = (value & 0x7f) as u8;
        value = value >> 7;
        if value != 0 {
            assert(temp < 128 ==> temp | 0x80 == temp + 128) by (bit_vector);
            temp = temp | 0x80;
        }
        buf.push(temp);
        if value == 0 {
            assert(varint_encoding(v0 as nat) =~= seq![temp]);
            assert(buf@ =~= before + varint_encoding(v0 as nat));
            break;
        }
        assert(varint_encoding(v0 as nat) =~= seq![temp] + varint_encoding(value as nat));
        assert(buf@ + varint_encoding(value as nat) =~= before + varint_encoding(v0 as nat));
    }
}

/// The bits of `val`, as `val as u32` gives them.
pub fn i32_to_bits(val: i32) -> (r: u32)
    ensures
        r as nat == i32_bits(val),
{
    if val >= 0 {
        val as u32
    } else {
        (val as i64 + 0x1_0000_0000i64) as u32
    }
}

/// The signed number with the bits `x`, as `x as i32` gives it.
pub fn i32_from_u32_bits(x: u32) -> (r: i32)
    ensures
        r == i32_from_bits(x as nat),
{
    if x < 0x8000_0000 {
        x as i32
    } else {
        (x as i64 - 0x1_0000_0000i64) as i32
    }
}

/// Appends the encoding of `val` (of its 32 bits, so a negative number takes five bytes).
pub fn write_varint(buf: &mut Vec<u8>, val: i32)
    ensures
        final(buf)@ == old(buf)@ + varint_encoding(i32_bits(val)),
{
    let bits = i32_to_bits(val);
    write_varint_bits(buf, bits);
}

/// Reads a variable-length integer from the front of `buf`, as the server
/// query reads one from the connection, byte by byte.
pub fn read_varint(buf: &[u8]) -> (r: VarIntRead)
    ensures
        r == varint_read(buf@),
{
    assert(buf@.skip(0) =~= buf@);
    read_varint_at(buf, 0)
}

/// Reads a variable-length integer from `buf` starting at byte `start`.
pub fn read_varint_at(buf: &[u8], start: usize) -> (r: VarIntRead)
    requires
        start <= buf@.len(),
    ensures
        r == varint_read(buf@.skip(start as int)),
{
    let ghost src = buf@.skip(start as int);
    let mut i: usize = 0;
    let mut acc: u64 = 0;
    let mut mult: u64 = 1;
    loop
        invariant
            start <= buf@.len(),
            src == buf@.skip(start as int),
            i <= 5,
            i <= src.len(),
            forall|j: int| 0 <= j < i ==> src[j] >= 128,
            acc == varint_sum(src.take(i as int)),
            mult == pow128(i as nat),
            acc < mult,
        decreases 5 - i,
    {
        proof {
            lemma_run_at_least(src, i as int);
            lemma_pow128_bound(i as nat);
        }
        if i == buf.len() - start {
            return VarIntRead::Incomplete;
        }
        if i == 5 {
            return VarIntRead::TooBig;
        }
        let b = buf[start + i];
        assert(b == src[i as int]);
        assert(b & 0x7f == b % 128) by (bit_vector);
        assert(b & 0x80 == 0 <==> b < 128) by (bit_vector);
        proof {
            lemma_sum_push(src.take(i as int), b);
            assert(src.take(i as int).push(b) =~= src.take(i + 1));
            assert((b % 128) as nat * mult <= 127 * mult) by (nonlinear_arith)
                requires
                    b % 128 <= 127,
            ;
            lemma_pow128_bound((i + 1) as nat);
        }
        acc = acc + ((b & 0x7f) as u64) * mult;
        if b & 0x80 == 0 {
            proof {
                lemma_run_at_least(src, i as int);
            }
            let bits = (acc % 0x1_0000_0000u64) as u32;
            return VarIntRead::Value(i32_from_u32_bits(bits), i + 1);
        }
        i = i + 1;
        mult = mult * 128;
    }
}

/// Whatever number is written, reading it back from the front of the buffer
/// gives that number and the count of bytes written, whatever bytes follow;
/// the encoding of a 32-bit number takes between one and five bytes.
pub proof fn lemma_varint_roundtrip(v: i32, rest: Seq<u8>)
    ensures
        1 <= varint_encoding(i32_bits(v)).len() <= 5,
        varint_read(varint_encoding(i32_bits(v)) + rest) == VarIntRead::Value(
            v,
            varint_encoding(i32_bits(v)).len() as usize,
        ),
{
    lemma_bits_roundtrip(i32_bits(v), rest);
    assert(i32_from_bits(i32_bits(v)) == v);
}

/// Reading back the encoding of a 32-bit pattern gives the signed number with
/// those bits and the count of bytes of the encoding.
pub proof fn lemma_bits_roundtrip(x: nat, rest: Seq<u8>)
    requires
        x < two_pow_32(),
    ensures
        1 <= varint_encoding(x).len() <= 5,
        varint_read(varint_encoding(x) + rest) == VarIntRead::Value(
            i32_from_bits(x),
            varint_encoding(x).len() as usize,
        ),
{
    lemma_pow128_bound(5);
    reveal_with_fuel(pow128, 6);
    lemma_encoding_shape(x, rest, 5);
    let e = varint_encoding(x);
    let buf = e + rest;
    assert(continuation_run(buf) == e.len() - 1);
    assert(buf.take(e.len() as int) =~= e);
    assert(x % (two_pow_32() as nat) == x);
}

proof fn lemma_run_prefix(buf: Seq<u8>, k: int)
    requires
        0 <= k <= buf.len(),
    ensures
        continuation_run(buf.take(k)) == if k < continuation_run(buf) {
            k as nat
        } else {
            continuation_run(buf)
        },
    decreases k,
{
    if k > 0 && buf[0] >= 128 {
        assert(buf.take(k).drop_first() =~= buf.drop_first().take(k - 1));
        lemma_run_prefix(buf.drop_first(), k - 1);
    }
}

/// While a number is still arriving its read is incomplete, and once all of
/// its bytes are there the read gives it, whatever follows.
pub proof fn lemma_read_prefix(buf: Seq<u8>, k: int)
    requires
        varint_read(buf) is Value,
        0 <= k <= buf.len(),
    ensures
        varint_read(buf) matches VarIntRead::Value(_, n) && (k < n ==> varint_read(buf.take(k))
            == VarIntRead::Incomplete) && (k >= n ==> varint_read(buf.take(k)) == varint_read(buf)),
{
    lemma_run_prefix(buf, k);
    let c = continuation_run(buf);
    if k > c {
        assert(buf.take(k).take(c as int + 1) =~= buf.take(c as int + 1));
    }
}

} // verus!
