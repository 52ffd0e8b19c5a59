//! Binary deltas in the bsdiff 4 format.

use vstd::prelude::*;
use crate::text::{compare_bytes, Rank};

verus! {

/// The delta that is written for turning `source` into `target`, or `None`
/// if writing it fails.
pub uninterp spec fn bsdiff_patch(source: Seq<u8>, target: Seq<u8>) -> Option<Seq<u8>>;

/// What applying the delta `patch` to `source` gives, or `None` if the delta
/// cannot be applied to it.
pub uninterp spec fn bspatch_target(source: Seq<u8>, patch: Seq<u8>) -> Option<Seq<u8>>;

/// The longest source that can be indexed for a delta.
pub const MAX_SOURCE_LEN: usize = 0x7fff_ffff;

/// Length of the header of a delta.
pub const HEADER_LEN: usize = 32;

/// The largest value of a size field in the header: such a field is a
/// signed 64-bit number and a size is not negative.
pub const MAX_FIELD: u64 = 0x7fff_ffff_ffff_ffff;

/// The eight bytes from `at` on, read as a little-endian number.
pub open spec fn le_u64(bytes: Seq<u8>, at: int) -> int {
    bytes[at] + 0x100 * bytes[at + 1] + 0x1_0000 * bytes[at + 2] + 0x100_0000 * bytes[at + 3]
        + 0x1_0000_0000 * bytes[at + 4] + 0x100_0000_0000 * bytes[at + 5] + 0x1_0000_0000_0000
        * bytes[at + 6] + 0x100_0000_0000_0000 * bytes[at + 7]
}

/// Whether `patch` begins with the eight characters `BSDIFF40`.
pub open spec fn has_magic(patch: Seq<u8>) -> bool {
    patch.len() >= 8 && patch[0] == 0x42 && patch[1] == 0x53 && patch[2] == 0x44 && patch[3] == 0x49
        && patch[4] == 0x46 && patch[5] == 0x46 && patch[6] == 0x34 && patch[7] == 0x30
}

/// Whether `patch` is framed as a delta: the header is complete, begins with
/// the magic, and the two blocks whose sizes it gives, the controls and the
/// differences, lie within the bytes that follow it.
pub open spec fn patch_header_ok(patch: Seq<u8>) -> bool {
    &&& patch.len() >= HEADER_LEN
    &&& has_magic(patch)
    &&& le_u64(patch, 8) <= MAX_FIELD
    &&& le_u64(patch, 16) <= MAX_FIELD
    &&& HEADER_LEN + le_u64(patch, 8) + le_u64(patch, 16) <= patch.len()
}

/// What applying `patch` to `source` gives: nothing unless the delta is
/// framed as one and can be applied.
pub open spec fn patch_result(source: Seq<u8>, patch: Seq<u8>) -> Option<Seq<u8>> {
    if patch_header_ok(patch) {
        bspatch_target(source, patch)
    } else {
        None
    }
}

/// Why no delta was made or applied.
#[derive(Clone, Debug, PartialEq, Eq)]
pub enum DeltaError {
    /// The source is longer than `MAX_SOURCE_LEN`.
    SourceTooLarge,
    /// The bytes are not framed as a delta.
    NotAPatch,
    /// The delta that was made does not give back the target when it is
    /// applied to the source.
    Unfaithful,
    /// The delta could not be written or applied; the text says why.
    Failed(String),
}

/// Reads the little-endian number in the eight bytes from `at` on.
fn read_le_u64(bytes: &[u8], at: usize) -> (value: u64)
    requires
        at + 8 <= bytes.len(),
    ensures
        value == le_u64(bytes@, at as int),
{
    let b0: u64 = bytes[at] as u64;
    let b1: u64 = bytes[at + 1] as u64;
    let b2: u64 = bytes[at + 2] as u64;
    let b3: u64 = bytes[at + 3] as u64;
    let b4: u64 = bytes[at + 4] as u64;
    let b5: u64 = bytes[at + 5] as u64;
    let b6: u64 = bytes[at + 6] as u64;
    let b7: u64 = bytes[at + 7] as u64;
    b0 + 0x100 * b1 + 0x1_0000 * b2 + 0x100_0000 * b3 + 0x1_0000_0000 * b4 + 0x100_0000_0000 * b5
        + 0x1_0000_0000_0000 * b6 + 0x100_0000_0000_0000 * b7
}

/// Whether `patch` is framed as a delta.
pub fn header_ok(patch: &[u8]) -> (ok: bool)
    ensures
        ok == patch_header_ok(patch@),
{
    if patch.len() < HEADER_LEN {
        return false;
    }
    if !(patch[0] == 0x42 && patch[1] == 0x53 && patch[2] == 0x44 && patch[3] == 0x49 && patch[4]
        == 0x46 && patch[5] == 0x46 && patch[6] == 0x34 && patch[7] == 0x30) {
        return false;
    }
    let controls: u64 = read_le_u64(patch, 8);
    let differences: u64 = read_le_u64(patch, 16);
    if controls > MAX_FIELD || differences > MAX_FIELD {
        return false;
    }
    let body: u64 = (patch.len() - HEADER_LEN) as u64;
    controls <= body && differences <= body - controls
}

/// Computes a delta.
///
/// Calls `qbsdiff::Bsdiff::new(source, target)` and `compare` on it, writing
/// into a fresh vector. `new` panics on a source longer than
/// `suffix_array::MAX_LENGTH`, which the precondition leaves out. `compare`
/// works on the two slices with fixed settings and collects its parts in
/// order, so whether it succeeds and what it writes depend on them alone.
/// When it succeeds the vector holds the delta; an error of the writer is
/// handed back as its message.
#[verifier::external_body]
pub(crate) fn bsdiff(source: &[u8], target: &[u8]) -> (r: Result<Vec<u8>, String>)
    requires
        source@.len() <= MAX_SOURCE_LEN,
    ensures
        match r {
            Ok(patch) => bsdiff_patch(source@, target@) == Some(patch@),
            Err(_) => bsdiff_patch(source@, target@) is None,
        },
{
    let mut patch = Vec::new();
    match qbsdiff::Bsdiff::new(source, target).compare(std::io::Cursor::new(&mut patch)) {
        Ok(_) => Ok(patch),
        Err(error) => Err(error.to_string()),
    }
}

/// Applies a delta.
///
/// Calls `qbsdiff::Bspatch::new(patch)` and `apply` on it, writing into a
/// fresh vector. `new` reads the two block sizes from the header and cuts
/// the rest at them; the precondition leaves out the headers on which that
/// arithmetic overflows or the cut lies outside the bytes. When both calls
/// succeed the vector holds the target; an error of either is handed back as
/// its message.
#[verifier::external_body]
pub(crate) fn bspatch(source: &[u8], patch: &[u8]) -> (r: Result<Vec<u8>, String>)
    requires
        patch_header_ok(patch@),
    ensures
        match r {
            Ok(target) => bspatch_target(source@, patch@) == Some(target@),
            Err(_) => bspatch_target(source@, patch@) is None,
        },
{
    let mut target = Vec::new();
    let applied = match qbsdiff::Bspatch::new(patch) {
        Ok(patcher) => patcher.apply(source, std::io::Cursor::new(&mut target)),
        Err(error) => Err(error),
    };
    match applied {
        Ok(_) => Ok(target),
        Err(error) => Err(error.to_string()),
    }
}

/// Whether the delta for turning `source` into `target` can be written and,
/// applied to the source, gives back the target.
pub open spec fn faithful_delta(source: Seq<u8>, target: Seq<u8>) -> bool {
    bsdiff_patch(source, target) matches Some(patch) && patch_result(source, patch) == Some(target)
}

/// Makes the delta that turns `source` into `target`, and applies it to the
/// source before handing it out: a delta is only handed out if that gives
/// back the target.
///
/// There is a delta exactly if the source is not too long to be indexed, the
/// delta can be written, and it stands the test; each error says which of
/// these did not hold.
pub fn make_patch(source: &[u8], target: &[u8]) -> (r: Result<Vec<u8>, DeltaError>)
    ensures
        r is Ok <==> source@.len() <= MAX_SOURCE_LEN && faithful_delta(source@, target@),
        match r {
            Ok(patch) => bsdiff_patch(source@, target@) == Some(patch@) && patch_result(
                source@,
                patch@,
            ) == Some(target@),
            Err(DeltaError::SourceTooLarge) => source@.len() > MAX_SOURCE_LEN,
            Err(DeltaError::Failed(_)) => source@.len() <= MAX_SOURCE_LEN && bsdiff_patch(
                source@,
                target@,
            ) is None,
            Err(DeltaError::Unfaithful) => source@.len() <= MAX_SOURCE_LEN && bsdiff_patch(
                source@,
                target@,
            ) is Some && !faithful_delta(source@, target@),
            Err(DeltaError::NotAPatch) => false,
        },
{
    if source.len() > MAX_SOURCE_LEN {
        return Err(DeltaError::SourceTooLarge);
    }
    match made_patch(bsdiff(source, target)) {
        Ok(patch) => {
            let applied = apply_patch(source, patch.as_slice());
            confirmed_patch(target, patch, applied)
        },
        Err(error) => Err(error),
    }
}

/// What `make_patch` makes of each outcome of writing the delta.
pub fn made_patch(written: Result<Vec<u8>, String>) -> (r: Result<Vec<u8>, DeltaError>)
    ensures
        match written {
            Ok(patch) => r == Ok::<Vec<u8>, DeltaError>(patch),
            Err(why) => r == Err::<Vec<u8>, DeltaError>(DeltaError::Failed(why)),
        },
{
    match written {
        Ok(patch) => Ok(patch),
        Err(why) => Err(DeltaError::Failed(why)),
    }
}

/// What `make_patch` makes of each outcome of applying the delta that was
/// written: the delta is handed out exactly if applying it gave the target.
pub fn confirmed_patch(target: &[u8], patch: Vec<u8>, applied: Result<Vec<u8>, DeltaError>) -> (r:
    Result<Vec<u8>, DeltaError>)
    ensures
        match applied {
            Ok(bytes) => if bytes@ == target@ {
                r == Ok::<Vec<u8>, DeltaError>(patch)
            } else {
                r == Err::<Vec<u8>, DeltaError>(DeltaError::Unfaithful)
            },
            Err(_) => r == Err::<Vec<u8>, DeltaError>(DeltaError::Unfaithful),
        },
{
    match applied {
        Ok(bytes) => {
            if compare_bytes(bytes.as_slice(), target) == Rank::Same {
                Ok(patch)
            } else {
                Err(DeltaError::Unfaithful)
            }
        },
        Err(_) => Err(DeltaError::Unfaithful),
    }
}

/// Applies the delta `patch` to `source`.
///
/// Succeeds exactly when the bytes are framed as a delta and the delta can
/// be applied to the source, and then gives the target.
pub fn apply_patch(source: &[u8], patch: &[u8]) -> (r: Result<Vec<u8>, DeltaError>)
    ensures
        match r {
            Ok(target) => patch_result(source@, patch@) == Some(target@),
            Err(DeltaError::NotAPatch) => !patch_header_ok(patch@),
            Err(DeltaError::Failed(_)) => patch_header_ok(patch@) && patch_result(source@, patch@)
                is None,
            Err(DeltaError::SourceTooLarge) => false,
            Err(DeltaError::Unfaithful) => false,
        },
{
    if !header_ok(patch) {
        return Err(DeltaError::NotAPatch);
    }
    match bspatch(source, patch) {
        Ok(target) => Ok(target),
        Err(why) => Err(DeltaError::Failed(why)),
    }
}

} // verus!
