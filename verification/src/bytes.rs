//! Byte-sequence helpers shared by the codecs: slicing, appending and big/little-endian numbers.

use vstd::prelude::*;
use vstd::slice::slice_subrange;
use vstd::slice::slice_to_vec;

verus! {

/// The smaller of two numbers.
pub open spec fn min_int(a: int, b: int) -> int {
    if a <= b {
        a
    } else {
        b
    }
}

/// The larger of two numbers.
pub open spec fn max_int(a: int, b: int) -> int {
    if a >= b {
        a
    } else {
        b
    }
}

/// The two-byte big-endian form of a number below 65536.
pub open spec fn be16(n: int) -> Seq<u8> {
    seq![(n / 256) as u8, (n % 256) as u8]
}

/// The four-byte big-endian form of a number below 2^32.
pub open spec fn be32(n: int) -> Seq<u8> {
    seq![
        (n / 16777216) as u8,
        (n / 65536 % 256) as u8,
        (n / 256 % 256) as u8,
        (n % 256) as u8,
    ]
}

/// The number two big-endian bytes at an offset stand for.
pub open spec fn be16_at(data: Seq<u8>, at: int) -> int {
    data[at] * 256 + data[at + 1]
}

/// The number four big-endian bytes at an offset stand for.
pub open spec fn be32_at(data: Seq<u8>, at: int) -> int {
    data[at] * 16777216 + data[at + 1] * 65536 + data[at + 2] * 256 + data[at + 3]
}

/// The number two little-endian bytes at an offset stand for.
pub open spec fn le16_at(data: Seq<u8>, at: int) -> int {
    data[at + 1] * 256 + data[at]
}

/// The number four little-endian bytes at an offset stand for.
pub open spec fn le32_at(data: Seq<u8>, at: int) -> int {
    data[at + 3] * 16777216 + data[at + 2] * 65536 + data[at + 1] * 256 + data[at]
}

/// A copy of part of a byte slice.
pub(crate) fn CopyRange(data: &[u8], uFrom: usize, uTo: usize) -> (out: Vec<u8>)
    requires
        uFrom <= uTo <= data@.len(),
    ensures
        out@ == data@.subrange(uFrom as int, uTo as int),
{
    slice_to_vec(slice_subrange(data, uFrom, uTo))
}

/// A copy of a byte slice.
pub(crate) fn CopyAll(data: &[u8]) -> (out: Vec<u8>)
    ensures
        out@ == data@,
{
    slice_to_vec(data)
}

/// Appends a byte slice to a vector.
pub(crate) fn AppendBytes(vecTarget: &mut Vec<u8>, data: &[u8])
    ensures
        final(vecTarget)@ == old(vecTarget)@ + data@,
{
    let mut vecCopy = slice_to_vec(data);
    vecTarget.append(&mut vecCopy);
}

/// Appends the big-endian form of a 16-bit number.
pub(crate) fn AppendU16(vecTarget: &mut Vec<u8>, u16Value: u16)
    ensures
        final(vecTarget)@ == old(vecTarget)@ + be16(u16Value as int),
{
    vecTarget.push((u16Value / 256) as u8);
    vecTarget.push((u16Value % 256) as u8);
    assert(vecTarget@ =~= old(vecTarget)@ + be16(u16Value as int));
}

/// Appends the big-endian form of a 32-bit number.
pub(crate) fn AppendU32(vecTarget: &mut Vec<u8>, u32Value: u32)
    ensures
        final(vecTarget)@ == old(vecTarget)@ + be32(u32Value as int),
{
    vecTarget.push((u32Value / 16777216) as u8);
    vecTarget.push((u32Value / 65536 % 256) as u8);
    vecTarget.push((u32Value / 256 % 256) as u8);
    vecTarget.push((u32Value % 256) as u8);
    assert(vecTarget@ =~= old(vecTarget)@ + be32(u32Value as int));
}

/// Reads a big-endian 16-bit number.
pub(crate) fn ReadBe16(data: &[u8], uAt: usize) -> (u16Value: u16)
    requires
        uAt + 2 <= data@.len(),
    ensures
        u16Value as int == be16_at(data@, uAt as int),
{
    data[uAt] as u16 * 256 + data[uAt + 1] as u16
}

/// Reads a big-endian 32-bit number.
pub(crate) fn ReadBe32(data: &[u8], uAt: usize) -> (u32Value: u32)
    requires
        uAt + 4 <= data@.len(),
    ensures
        u32Value as int == be32_at(data@, uAt as int),
{
    data[uAt] as u32 * 16777216 + data[uAt + 1] as u32 * 65536 + data[uAt + 2] as u32 * 256
        + data[uAt + 3] as u32
}

/// Reads a little-endian 16-bit number.
pub(crate) fn ReadLe16(data: &[u8], uAt: usize) -> (u16Value: u16)
    requires
        uAt + 2 <= data@.len(),
    ensures
        u16Value as int == le16_at(data@, uAt as int),
{
    data[uAt] as u16 + data[uAt + 1] as u16 * 256
}

/// Reads a little-endian 32-bit number.
pub(crate) fn ReadLe32(data: &[u8], uAt: usize) -> (u32Value: u32)
    requires
        uAt + 4 <= data@.len(),
    ensures
        u32Value as int == le32_at(data@, uAt as int),
{
    data[uAt] as u32 + data[uAt + 1] as u32 * 256 + data[uAt + 2] as u32 * 65536
        + data[uAt + 3] as u32 * 16777216
}

/// Whether two byte slices hold the same bytes.
pub(crate) fn SameBytes(arrA: &[u8], arrB: &[u8]) -> (bSame: bool)
    ensures
        bSame == (arrA@ == arrB@),
{
    if arrA.len() != arrB.len() {
        return false;
    }
    let mut uAt: usize = 0;
    while uAt < arrA.len()
        invariant
            arrA@.len() == arrB@.len(),
            uAt <= arrA@.len(),
            forall|i: int| 0 <= i < uAt ==> arrA@[i] == arrB@[i],
        decreases arrA@.len() - uAt,
    {
        if arrA[uAt] != arrB[uAt] {
            return false;
        }
        uAt += 1;
    }
    assert(arrA@ =~= arrB@);
    true
}

/// Writing a 16-bit number and reading it back gives the number.
pub proof fn law_be16_round_trip(n: u16)
    ensures
        be16(n as int).len() == 2,
        be16_at(be16(n as int), 0) == n,
{
}

/// Writing a 32-bit number and reading it back gives the number.
pub proof fn law_be32_round_trip(n: u32)
    ensures
        be32(n as int).len() == 4,
        be32_at(be32(n as int), 0) == n,
{
}

/// Reading a 16-bit number and writing it back gives the bytes it was read from.
pub proof fn law_be16_reads_what_is_written(data: Seq<u8>, at: int)
    requires
        0 <= at,
        at + 2 <= data.len(),
    ensures
        be16(be16_at(data, at)) == data.subrange(at, at + 2),
{
    let a = data[at] as int;
    let b = data[at + 1] as int;
    assert((a * 256 + b) / 256 == a && (a * 256 + b) % 256 == b);
    assert(be16(be16_at(data, at)) =~= data.subrange(at, at + 2));
}

/// Reading a 32-bit number and writing it back gives the bytes it was read from.
pub proof fn law_be32_reads_what_is_written(data: Seq<u8>, at: int)
    requires
        0 <= at,
        at + 4 <= data.len(),
    ensures
        be32(be32_at(data, at)) == data.subrange(at, at + 4),
{
    let a = data[at] as int;
    let b = data[at + 1] as int;
    let c = data[at + 2] as int;
    let d = data[at + 3] as int;
    let n = a * 16777216 + b * 65536 + c * 256 + d;
    assert(n / 16777216 == a);
    assert(n / 65536 == a * 256 + b);
    assert(n / 256 == a * 65536 + b * 256 + c);
    assert(n % 256 == d);
    assert((a * 256 + b) % 256 == b);
    assert((a * 65536 + b * 256 + c) % 256 == c);
    assert(be32(be32_at(data, at)) =~= data.subrange(at, at + 4));
}

} // verus!
