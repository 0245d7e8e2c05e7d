use vstd::prelude::*;

verus! {

/// What one filesystem-statistics call reports for a mount path: block
/// sizes, block counts, inode counts and filesystem attributes, all as
/// plain 64-bit values.
#[derive(Debug, Copy, Clone, PartialEq, Eq, Structural)]
pub struct StatvfsResult {
    pub f_bsize: u64,
    pub f_frsize: u64,
    pub f_blocks: u64,
    pub f_bfree: u64,
    pub f_bavail: u64,
    pub f_files: u64,
    pub f_ffree: u64,
    pub f_favail: u64,
    pub f_fsid: u64,
    pub f_flag: u64,
    pub f_namemax: u64,
}

/// Normalises a raw statistics record: on platforms whose statistics call
/// reports the meaningful block size in the fragment-size field, that field
/// replaces the block size; everything else is kept.
pub fn disk_info(raw: StatvfsResult, use_fragment_size: bool) -> (r: StatvfsResult)
    ensures
        r.f_bsize == if use_fragment_size {
            raw.f_frsize
        } else {
            raw.f_bsize
        },
        r.f_frsize == raw.f_frsize,
        r.f_blocks == raw.f_blocks,
        r.f_bfree == raw.f_bfree,
        r.f_bavail == raw.f_bavail,
        r.f_files == raw.f_files,
        r.f_ffree == raw.f_ffree,
        r.f_favail == raw.f_favail,
        r.f_fsid == raw.f_fsid,
        r.f_flag == raw.f_flag,
        r.f_namemax == raw.f_namemax,
{
    if use_fragment_size {
        StatvfsResult { f_bsize: raw.f_frsize, ..raw }
    } else {
        raw
    }
}

/// The free bytes a statistics record reports: free blocks times block
/// size, held at the 64-bit ceiling where the product would overflow.
pub open spec fn spec_free_bytes(stat: StatvfsResult) -> u64 {
    if stat.f_bfree * stat.f_bsize <= u64::MAX {
        (stat.f_bfree * stat.f_bsize) as u64
    } else {
        u64::MAX
    }
}

pub fn free_bytes(stat: &StatvfsResult) -> (r: u64)
    ensures
        r == spec_free_bytes(*stat),
{
    match stat.f_bfree.checked_mul(stat.f_bsize) {
        Some(v) => v,
        None => u64::MAX,
    }
}

} // verus!
