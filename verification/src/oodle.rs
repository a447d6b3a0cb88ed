//! Layout of the state file of the Oodle network decoder.

use crate::parser::le_u32;
use vstd::prelude::*;
use vstd::slice::slice_subrange;

verus! {

/// Offset of the size of the compacted state.
pub const COMPACTED_SIZE_AT: usize = 0x18;

/// Offset of the sliding window.
pub const WINDOW_AT: usize = 0x20;

/// Length of the sliding window.
pub const WINDOW_LEN: usize = 0x800000;

/// Bits of the hash table of the shared buffer.
pub const HASH_TABLE_BITS: i32 = 0x13;

/// The parts of a state file.
pub struct StateParts<'a> {
    /// The sliding window that the shared buffer is set up with.
    pub window: &'a [u8],
    /// The compacted state of the decoder.
    pub compacted: &'a [u8],
}

/// Size of the compacted state as the file states it: four bytes at offset
/// 0x18, low byte first.
pub open spec fn compacted_len(blob: Seq<u8>) -> int {
    le_u32(blob.skip(COMPACTED_SIZE_AT as int))
}

/// Whether a file holds the window and the compacted state that it
/// announces.
pub open spec fn blob_fits(blob: Seq<u8>) -> bool {
    blob.len() >= WINDOW_AT + WINDOW_LEN && compacted_len(blob) <= blob.len() - WINDOW_AT
        - WINDOW_LEN
}

/// Cuts a state file into its parts: the window begins at offset 0x20 and
/// the compacted state follows it. `None` where the file is too short.
pub fn split_state<'a>(blob: &'a [u8]) -> (parts: Option<StateParts<'a>>)
    ensures
        match parts {
            Some(p) => blob_fits(blob@) && p.window@ == blob@.subrange(
                WINDOW_AT as int,
                WINDOW_AT + WINDOW_LEN,
            ) && p.compacted@ == blob@.subrange(
                WINDOW_AT + WINDOW_LEN,
                WINDOW_AT + WINDOW_LEN + compacted_len(blob@),
            ),
            None => !blob_fits(blob@),
        },
{
    if blob.len() < WINDOW_AT + WINDOW_LEN {
        return None;
    }
    let size: u32 = blob[COMPACTED_SIZE_AT] as u32 + 0x100 * (blob[COMPACTED_SIZE_AT + 1] as u32)
        + 0x1_0000 * (blob[COMPACTED_SIZE_AT + 2] as u32) + 0x100_0000 * (blob[COMPACTED_SIZE_AT
        + 3] as u32);
    let start = WINDOW_AT + WINDOW_LEN;
    if size as u64 > (blob.len() - start) as u64 {
        return None;
    }
    let window = slice_subrange(blob, WINDOW_AT, start);
    let compacted = slice_subrange(blob, start, start + size as usize);
    Some(StateParts { window, compacted })
}

} // verus!
