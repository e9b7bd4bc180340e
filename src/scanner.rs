use crate::readers::{le_value, read_unsigned_short};
use vstd::prelude::*;

verus! {

/// The two bytes that open every ping record, read as a little-endian short.
pub const PING_MAGIC: u16 = 0xFACE;

/// The little-endian short whose first byte is at `at`.
pub open spec fn short_at(data: Seq<u8>, at: int) -> nat {
    le_value(data.subrange(at, at + 2))
}

/// The first offset at or after `start` where `target` is stored as a
/// little-endian short, trying every byte offset; `None` when there is none.
pub open spec fn first_match_from(data: Seq<u8>, start: int, target: u16) -> Option<int>
    decreases data.len() - start,
{
    if start < 0 || start + 2 > data.len() {
        None
    } else if short_at(data, start) == target {
        Some(start)
    } else {
        first_match_from(data, start + 1, target)
    }
}

/// A match found from `start` lies at or after `start`, and its two bytes lie
/// inside the buffer.
pub proof fn lemma_first_match_bounds(data: Seq<u8>, start: int, target: u16)
    ensures
        first_match_from(data, start, target) matches Some(p) ==> start <= p && p + 2 <= data.len(),
    decreases data.len() - start,
{
    if 0 <= start && start + 2 <= data.len() {
        lemma_first_match_bounds(data, start + 1, target);
    }
}

/// Scans forward from `base_offset`, one byte at a time, for the first offset
/// that holds `target_value` as a little-endian short.
pub fn find_byte_offset_for_value(data: &[u8], base_offset: usize, target_value: u16) -> (r: Option<
    usize,
>)
    ensures
        match r {
            Some(k) => first_match_from(data@, base_offset as int, target_value) == Some(k as int),
            None => first_match_from(data@, base_offset as int, target_value) is None,
        },
{
    let len = data.len();
    let mut offset: usize = base_offset;
    while offset < len && len - offset >= 2
        invariant
            base_offset <= offset,
            len == data@.len(),
            first_match_from(data@, base_offset as int, target_value) == first_match_from(
                data@,
                offset as int,
                target_value,
            ),
        decreases len - offset,
    {
        match read_unsigned_short(data, offset) {
            Ok(value) => {
                if value == target_value {
                    return Some(offset);
                }
            },
            Err(_) => {
                return None;
            },
        }
        offset = offset + 1;
    }
    None
}

/// Finds the start of the next ping record at or after `start_offset`.
pub fn find_next_ping(data: &[u8], start_offset: usize) -> (r: Option<usize>)
    ensures
        match r {
            Some(k) => first_match_from(data@, start_offset as int, PING_MAGIC) == Some(k as int),
            None => first_match_from(data@, start_offset as int, PING_MAGIC) is None,
        },
{
    find_byte_offset_for_value(data, start_offset, PING_MAGIC)
}

/// The first offset at or after `start` that holds the magic number followed
/// by the header-type byte `header_type`.
pub open spec fn first_ping_of_type_from(data: Seq<u8>, start: int, header_type: u8) -> Option<int>
    decreases data.len() - start,
{
    if start < 0 || start + 3 > data.len() {
        None
    } else if short_at(data, start) == PING_MAGIC && data[start + 2] == header_type {
        Some(start)
    } else {
        first_ping_of_type_from(data, start + 1, header_type)
    }
}

/// Finds the next ping whose header-type byte, just after the magic number,
/// is `header_type`: a stricter scan that skips magic numbers met inside
/// other data.
pub fn find_next_ping_of_type(data: &[u8], start_offset: usize, header_type: u8) -> (r: Option<
    usize,
>)
    ensures
        match r {
            Some(k) => first_ping_of_type_from(data@, start_offset as int, header_type) == Some(
                k as int,
            ),
            None => first_ping_of_type_from(data@, start_offset as int, header_type) is None,
        },
{
    let len = data.len();
    let mut offset: usize = start_offset;
    while offset < len && len - offset >= 3
        invariant
            start_offset <= offset,
            len == data@.len(),
            first_ping_of_type_from(data@, start_offset as int, header_type)
                == first_ping_of_type_from(data@, offset as int, header_type),
        decreases len - offset,
    {
        match read_unsigned_short(data, offset) {
            Ok(value) => {
                if value == PING_MAGIC && data[offset + 2] == header_type {
                    return Some(offset);
                }
            },
            Err(_) => {
                return None;
            },
        }
        offset = offset + 1;
    }
    None
}

} // verus!
