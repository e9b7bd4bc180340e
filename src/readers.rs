use crate::error::DecodeError;
use vstd::prelude::*;
use vstd::utf8::{decode_utf8, valid_utf8};

verus! {

/// The unsigned number that `bytes` encode, least significant byte first.
pub open spec fn le_value(bytes: Seq<u8>) -> nat
    decreases bytes.len(),
{
    if bytes.len() == 0 {
        0
    } else {
        bytes[0] as nat + 256 * le_value(bytes.drop_first())
    }
}

/// 256 to the power `n`: one more than the largest value `n` bytes can encode.
pub open spec fn pow256(n: nat) -> nat
    decreases n,
{
    if n == 0 {
        1
    } else {
        256 * pow256((n - 1) as nat)
    }
}

/// The bytes of `bytes` with every null byte removed, the others kept in order.
pub open spec fn without_nulls(bytes: Seq<u8>) -> Seq<u8> {
    bytes.filter(|b: u8| b != 0)
}

/// The text that a fixed-length text field holding `bytes` stands for: its
/// non-null bytes read as UTF-8, or `None` where they are not valid UTF-8.
pub open spec fn text_of(bytes: Seq<u8>) -> Option<Seq<char>> {
    let kept = without_nulls(bytes);
    if valid_utf8(kept) {
        Some(decode_utf8(kept))
    } else {
        None
    }
}

proof fn lemma_le_value_bound(bytes: Seq<u8>)
    ensures
        le_value(bytes) < pow256(bytes.len()),
    decreases bytes.len(),
{
    if bytes.len() > 0 {
        lemma_le_value_bound(bytes.drop_first());
    }
}

proof fn lemma_pow256_monotone(a: nat, b: nat)
    requires
        a <= b,
    ensures
        pow256(a) <= pow256(b),
    decreases b,
{
    if a < b {
        lemma_pow256_monotone(a, (b - 1) as nat);
    }
}

proof fn lemma_pow256_small()
    ensures
        pow256(1) == 0x100,
        pow256(2) == 0x1_0000,
        pow256(4) == 0x1_0000_0000,
        pow256(8) == 0x1_0000_0000_0000_0000,
{
    reveal_with_fuel(pow256, 9);
}

/// The `size` bytes at `offset` read as a little-endian unsigned number.
fn read_le(data: &[u8], offset: usize, size: usize) -> (r: u64)
    requires
        size <= 8,
        offset + size <= data@.len(),
    ensures
        r as nat == le_value(data@.subrange(offset as int, offset + size)),
        (r as nat) < pow256(size as nat),
{
    let len = data.len();
    let mut acc: u64 = 0;
    let mut i: usize = size;
    proof {
        assert(data@.subrange(offset + i, offset + size).len() == 0);
    }
    while i > 0
        invariant
            i <= size <= 8,
            offset + size <= data@.len(),
            len == data@.len(),
            acc as nat == le_value(data@.subrange(offset + i, offset + size)),
            (acc as nat) < pow256((size - i) as nat),
        decreases i,
    {
        i = i - 1;
        let b = data[offset + i];
        proof {
            let s = data@.subrange(offset + i, offset + size);
            assert(s.drop_first() =~= data@.subrange(offset + i + 1, offset + size));
            lemma_pow256_monotone((size - i) as nat, 8);
            lemma_pow256_small();
        }
        acc = acc * 256 + b as u64;
    }
    acc
}

/// Reads the unsigned byte at `offset`.
pub fn read_and_decode_byte_as_number_u8(data: &[u8], offset: usize) -> (r: Result<u8, DecodeError>)
    ensures
        r is Ok <==> offset < data@.len(),
        r matches Ok(v) ==> v == data@[offset as int],
        r matches Err(e) ==> e == DecodeError::TruncatedRecord,
{
    if offset < data.len() {
        Ok(data[offset])
    } else {
        Err(DecodeError::TruncatedRecord)
    }
}

/// Reads the little-endian unsigned 16-bit number at `offset`.
pub fn read_unsigned_short(data: &[u8], offset: usize) -> (r: Result<u16, DecodeError>)
    ensures
        r is Ok <==> offset + 2 <= data@.len(),
        r matches Ok(v) ==> v as nat == le_value(data@.subrange(offset as int, offset + 2)),
        r matches Err(e) ==> e == DecodeError::TruncatedRecord,
{
    if offset > data.len() || data.len() - offset < 2 {
        return Err(DecodeError::TruncatedRecord);
    }
    let v = read_le(data, offset, 2);
    proof {
        lemma_pow256_small();
    }
    Ok(v as u16)
}

/// Reads the little-endian unsigned 32-bit number at `offset` (a field coded
/// `2H`: two shorts taken together).
pub fn read_unsigned_long(data: &[u8], offset: usize) -> (r: Result<u32, DecodeError>)
    ensures
        r is Ok <==> offset + 4 <= data@.len(),
        r matches Ok(v) ==> v as nat == le_value(data@.subrange(offset as int, offset + 4)),
        r matches Err(e) ==> e == DecodeError::TruncatedRecord,
{
    if offset > data.len() || data.len() - offset < 4 {
        return Err(DecodeError::TruncatedRecord);
    }
    let v = read_le(data, offset, 4);
    proof {
        lemma_pow256_small();
    }
    Ok(v as u32)
}

/// Reads the 32-bit float at `offset`, as its IEEE 754 bit pattern.
pub fn read_float_from_binary_at_offset(data: &[u8], offset: usize) -> (r: Result<u32, DecodeError>)
    ensures
        r is Ok <==> offset + 4 <= data@.len(),
        r matches Ok(v) ==> v as nat == le_value(data@.subrange(offset as int, offset + 4)),
        r matches Err(e) ==> e == DecodeError::TruncatedRecord,
{
    if offset > data.len() || data.len() - offset < 4 {
        return Err(DecodeError::TruncatedRecord);
    }
    let v = read_le(data, offset, 4);
    proof {
        lemma_pow256_small();
    }
    Ok(v as u32)
}

/// Reads the 64-bit float at `offset`, as its IEEE 754 bit pattern.
pub fn read_double(data: &[u8], offset: usize) -> (r: Result<u64, DecodeError>)
    ensures
        r is Ok <==> offset + 8 <= data@.len(),
        r matches Ok(v) ==> v as nat == le_value(data@.subrange(offset as int, offset + 8)),
        r matches Err(e) ==> e == DecodeError::TruncatedRecord,
{
    if offset > data.len() || data.len() - offset < 8 {
        return Err(DecodeError::TruncatedRecord);
    }
    Ok(read_le(data, offset, 8))
}

/// Relies on `String::from_utf8`: it accepts exactly the byte sequences that
/// are valid UTF-8, and then holds the characters they encode.
#[verifier::external_body]
fn utf8_to_string(bytes: Vec<u8>) -> (r: Option<String>)
    ensures
        r is Some <==> valid_utf8(bytes@),
        r matches Some(s) ==> s@ == decode_utf8(bytes@),
{
    String::from_utf8(bytes).ok()
}

/// Reads the `num_bytes` bytes at `offset` as text: every null byte is
/// dropped, wherever it stands, and the rest must be valid UTF-8.
pub fn read_and_decode_bytes_as_string(data: &[u8], offset: usize, num_bytes: usize) -> (r: Result<
    String,
    DecodeError,
>)
    ensures
        offset + num_bytes > data@.len() ==> r == Err::<String, DecodeError>(
            DecodeError::TruncatedRecord,
        ),
        offset + num_bytes <= data@.len() ==> match text_of(
            data@.subrange(offset as int, offset + num_bytes),
        ) {
            Some(t) => r matches Ok(s) && s@ == t,
            None => r == Err::<String, DecodeError>(DecodeError::InvalidText),
        },
{
    if offset > data.len() || data.len() - offset < num_bytes {
        return Err(DecodeError::TruncatedRecord);
    }
    let end = offset + num_bytes;
    let mut kept: Vec<u8> = Vec::new();
    let mut i: usize = offset;
    proof {
        reveal(Seq::filter);
        assert(data@.subrange(offset as int, offset as int).len() == 0);
    }
    while i < end
        invariant
            offset <= i <= end,
            end == offset + num_bytes,
            end <= data@.len(),
            kept@ == without_nulls(data@.subrange(offset as int, i as int)),
        decreases end - i,
    {
        let b = data[i];
        proof {
            reveal(Seq::filter);
            assert(data@.subrange(offset as int, i + 1).drop_last() =~= data@.subrange(
                offset as int,
                i as int,
            ));
        }
        if b != 0 {
            kept.push(b);
        }
        i = i + 1;
    }
    match utf8_to_string(kept) {
        Some(s) => Ok(s),
        None => Err(DecodeError::InvalidText),
    }
}

} // verus!
