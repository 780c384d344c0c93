//! Address resolution against the foreign process's dispatch table.
//!
//! The table holds one 64-bit little-endian function pointer per slot. Until
//! the foreign just-in-time compiler has materialized the function of
//! interest, its slot holds the same placeholder pointer as slot zero; once
//! the slot changes, the new pointer plus a fixed offset is the candidate
//! function entry, which is validated by comparing a fixed byte window
//! against a known signature. Two dependent addresses are then derived from
//! other slots by fixed offsets, with no wait: they are assumed compiled
//! once the primary function is.
//!
//! One call of [`resolve_attempt`] inspects a single observation of the
//! table. The caller drives the wait loop, choosing the poll interval and
//! the retry cap; a signature mismatch is fatal and must not be retried.

use crate::codec::{le_val, lemma_le_val_bound, lemma_pow256_64, read_u64_le};
use crate::memory::{mem_has_range, read_seq, ForeignMemory};
use vstd::prelude::*;

verus! {

/// Slot whose pointer materializes once the function of interest compiles.
pub const CAMERA_SLOT: u64 = 0x2C0_5484 / 4;

/// Offset from the materialized pointer to the function entry.
pub const CAMERA_ENTRY_OFFSET: u64 = 0x6C;

/// Slots and offsets for the two dependent rotation addresses.
pub const ROTATION_SLOT_A: u64 = 0x2C0_85FC / 4;

pub const ROTATION_OFFSET_A: u64 = 0x157;

pub const ROTATION_SLOT_B: u64 = 0x2E5_7FDC / 4;

pub const ROTATION_OFFSET_B: u64 = 0x7F;

/// Length of the validated byte window at the function entry.
pub const SIGNATURE_LEN: usize = 10;

#[derive(Clone, Copy, Debug, PartialEq, Eq, Structural)]
pub enum ResolveError {
    /// The dispatch table base pointer is null.
    EmptyJumpTable,
    /// The byte window at the candidate entry does not match the known
    /// signature: wrong build or missing CPU feature. Fatal, not retryable.
    SignatureMismatch,
    /// A derived address does not fit in the address space.
    AddressOverflow,
    /// The candidate entry's byte window is not mapped.
    UnreadableAddress,
}

/// The resolved addresses. Immutable once produced; all fields are non-zero.
#[derive(Clone, Copy, Debug, PartialEq, Eq, Structural)]
pub struct CameraOffsets {
    pub camera: u64,
    pub rotation_vec1: u64,
    pub rotation_vec2: u64,
}

/// The known signature of the function entry.
pub open spec fn signature() -> Seq<u8> {
    seq![0x45u8, 0x0Fu8, 0x38u8, 0xF1u8, 0xB4u8, 0x05u8, 0xC4u8, 0x05u8, 0x00u8, 0x00u8]
}

/// The signature as bytes.
pub fn signature_bytes() -> (r: Vec<u8>)
    ensures
        r@ == signature(),
{
    let mut r: Vec<u8> = Vec::new();
    r.push(0x45);
    r.push(0x0F);
    r.push(0x38);
    r.push(0xF1);
    r.push(0xB4);
    r.push(0x05);
    r.push(0xC4);
    r.push(0x05);
    r.push(0x00);
    r.push(0x00);
    proof {
        assert(r@ =~= signature());
    }
    r
}

/// Whether `bytes` is exactly the known signature.
pub fn signature_matches(bytes: &Vec<u8>) -> (r: bool)
    ensures
        r == (bytes@ == signature()),
{
    let expected = signature_bytes();
    if bytes.len() != expected.len() {
        proof {
            assert(bytes@ != signature());
        }
        return false;
    }
    let n = bytes.len();
    let mut i: usize = 0;
    while i < n
        invariant
            i <= n,
            n == bytes@.len(),
            expected@ == signature(),
            n == expected@.len(),
            forall|j: int| 0 <= j < i ==> bytes@[j] == expected@[j],
        decreases n - i,
    {
        if bytes[i] != expected[i] {
            proof {
                assert(bytes@[i as int] != signature()[i as int]);
            }
            return false;
        }
        i = i + 1;
    }
    proof {
        assert(bytes@ =~= signature());
    }
    true
}

/// The memory address of a table slot.
pub open spec fn slot_addr(base: u64, slot: u64) -> int {
    base + 8 * slot
}

/// The slot's range is mapped (and fits the address space).
pub open spec fn slot_readable(m: Map<u64, u8>, base: u64, slot: u64) -> bool {
    &&& slot_addr(base, slot) + 8 <= u64::MAX + 1
    &&& mem_has_range(m, slot_addr(base, slot) as u64, 8)
}

/// The 64-bit little-endian pointer stored in a table slot.
pub open spec fn slot_value(m: Map<u64, u8>, base: u64, slot: u64) -> nat {
    le_val(read_seq(m, slot_addr(base, slot) as u64, 8))
}

/// All four slots the resolver reads are mapped.
pub open spec fn table_readable(m: Map<u64, u8>, base: u64) -> bool {
    &&& slot_readable(m, base, 0)
    &&& slot_readable(m, base, CAMERA_SLOT)
    &&& slot_readable(m, base, ROTATION_SLOT_A)
    &&& slot_readable(m, base, ROTATION_SLOT_B)
}

/// What one observation of the table resolves to: not ready yet while the
/// camera slot still holds the placeholder, an error, or the three
/// addresses.
pub open spec fn resolve_spec(m: Map<u64, u8>, base: u64) -> Result<
    Option<CameraOffsets>,
    ResolveError,
> {
    if base == 0 {
        Err(ResolveError::EmptyJumpTable)
    } else {
        let placeholder = slot_value(m, base, 0);
        let cam = slot_value(m, base, CAMERA_SLOT);
        if cam == placeholder {
            Ok(None)
        } else if cam + CAMERA_ENTRY_OFFSET > u64::MAX {
            Err(ResolveError::AddressOverflow)
        } else {
            let entry = (cam + CAMERA_ENTRY_OFFSET) as u64;
            if !mem_has_range(m, entry, SIGNATURE_LEN as nat) {
                Err(ResolveError::UnreadableAddress)
            } else if read_seq(m, entry, SIGNATURE_LEN as nat) != signature() {
                Err(ResolveError::SignatureMismatch)
            } else {
                let ra = slot_value(m, base, ROTATION_SLOT_A) + ROTATION_OFFSET_A;
                let rb = slot_value(m, base, ROTATION_SLOT_B) + ROTATION_OFFSET_B;
                if ra > u64::MAX || rb > u64::MAX {
                    Err(ResolveError::AddressOverflow)
                } else {
                    Ok(
                        Some(
                            CameraOffsets {
                                camera: entry,
                                rotation_vec1: ra as u64,
                                rotation_vec2: rb as u64,
                            },
                        ),
                    )
                }
            }
        }
    }
}

/// Read one table slot.
fn read_slot<M: ForeignMemory>(mem: &M, base: u64, slot: u64) -> (r: u64)
    requires
        slot_readable(mem.mem(), base, slot),
    ensures
        r == slot_value(mem.mem(), base, slot),
{
    proof {
        lemma_le_val_bound(read_seq(mem.mem(), (base + 8 * slot) as u64, 8));
        lemma_pow256_64();
    }
    let addr = base + 8 * slot;
    let bytes = mem.read_bytes(addr, 8);
    read_u64_le(&bytes)
}

/// Inspect the table once. While the camera slot still holds the same
/// placeholder pointer as slot zero, the function of interest has not been
/// compiled yet and the result is `Ok(None)`: poll again later. Once the
/// slot has changed, validate the signature at the candidate entry and
/// derive the dependent addresses; a mismatched signature is fatal.
pub fn resolve_attempt<M: ForeignMemory>(mem: &M, table_base: u64) -> (r: Result<
    Option<CameraOffsets>,
    ResolveError,
>)
    requires
        table_base != 0 ==> table_readable(mem.mem(), table_base),
    ensures
        r == resolve_spec(mem.mem(), table_base),
{
    if table_base == 0 {
        return Err(ResolveError::EmptyJumpTable);
    }
    let placeholder = read_slot(mem, table_base, 0);
    let cam = read_slot(mem, table_base, CAMERA_SLOT);
    if cam == placeholder {
        return Ok(None);
    }
    if cam > u64::MAX - CAMERA_ENTRY_OFFSET {
        return Err(ResolveError::AddressOverflow);
    }
    let entry = cam + CAMERA_ENTRY_OFFSET;
    if !mem.contains_range(entry, SIGNATURE_LEN) {
        return Err(ResolveError::UnreadableAddress);
    }
    let window = mem.read_bytes(entry, SIGNATURE_LEN);
    if !signature_matches(&window) {
        return Err(ResolveError::SignatureMismatch);
    }
    let ra_slot = read_slot(mem, table_base, ROTATION_SLOT_A);
    if ra_slot > u64::MAX - ROTATION_OFFSET_A {
        return Err(ResolveError::AddressOverflow);
    }
    let rb_slot = read_slot(mem, table_base, ROTATION_SLOT_B);
    if rb_slot > u64::MAX - ROTATION_OFFSET_B {
        return Err(ResolveError::AddressOverflow);
    }
    Ok(
        Some(
            CameraOffsets {
                camera: entry,
                rotation_vec1: ra_slot + ROTATION_OFFSET_A,
                rotation_vec2: rb_slot + ROTATION_OFFSET_B,
            },
        ),
    )
}

/// The resolved addresses are never zero: the camera entry lies past the
/// materialized pointer, and each dependent address lies past its slot's
/// pointer, by a positive fixed offset.
pub proof fn lemma_resolved_nonzero(m: Map<u64, u8>, base: u64)
    ensures
        resolve_spec(m, base) matches Ok(Some(o)) ==> o.camera != 0 && o.rotation_vec1 != 0
            && o.rotation_vec2 != 0,
{
}

} // verus!
