//! The per-tick decision logic of the control loop.
//!
//! Each tick: shutdown wins; a toggle flips the active flag and applies or
//! reverts the no-op patch group to match; while the captured foreign
//! structure pointer is still null the tick is a no-op; while inactive the
//! tick only caches the live field-of-view word; while active it writes the
//! sample's rotation fields and the cached field-of-view back into the
//! foreign structure. The caller supplies the tick cadence, the debounce
//! pause after a toggle, and the signals themselves.

use crate::codec::{be32, be32_bytes, read_be32, write_be32};
use crate::memory::{mem_has_range, read_seq, write_seq, ForeignMemory, MemoryError};
use crate::patch::{
    check_group, group_applied_to, group_reverted_to, mem_applied_to, mem_reverted_to, Patch,
    PatchError, PatchGroup,
};
use crate::resolver::CameraOffsets;
use crate::telemetry::TelemetrySample;
use vstd::prelude::*;

verus! {

/// Byte offsets of the fields used inside the foreign camera structure,
/// and the length of the block they lie in. Build-specific, like the
/// resolver's slots.
pub const ROT_X_OFFSET: u64 = 0x0C;

pub const ROT_Y_OFFSET: u64 = 0x10;

pub const FOV_OFFSET: u64 = 0x18;

pub const CAMERA_BLOCK_LEN: usize = 0x1C;

/// The signals a tick consumes, already reduced to booleans by the caller's
/// input collaborator.
#[derive(Clone, Copy, Debug, PartialEq, Eq, Structural)]
pub struct ControlSignals {
    pub toggle: bool,
    pub shutdown: bool,
}

/// What a tick did.
#[derive(Clone, Copy, Debug, PartialEq, Eq, Structural)]
pub enum TickAction {
    /// Shutdown was requested: stop the poller and leave the loop.
    Exit,
    /// The active flag flipped and the patch group now matches it.
    Toggled,
    /// The foreign structure pointer is still null: nothing to do.
    AwaitingCamera,
    /// Inactive: the live field-of-view word was cached for later.
    CachedFov,
    /// Active: the derived fields were written into the foreign structure.
    WroteCamera,
}

#[derive(Clone, Copy, Debug, PartialEq, Eq, Structural)]
pub enum TickError {
    /// A patch group member's write was refused mid-toggle.
    Patch(PatchError),
    /// A field write into the foreign structure was refused.
    Memory(MemoryError),
}

/// The camera block at `ptr` is mapped.
pub open spec fn camera_block_readable(m: Map<u64, u8>, ptr: u64) -> bool {
    mem_has_range(m, ptr, CAMERA_BLOCK_LEN as nat)
}

/// The memory after an active tick's three field writes: the sample's two
/// rotation words and the cached field-of-view word, big-endian, at their
/// offsets from `ptr`.
pub open spec fn camera_written(
    m: Map<u64, u8>,
    ptr: u64,
    sample: TelemetrySample,
    fov: u32,
) -> Map<u64, u8> {
    write_seq(
        write_seq(
            write_seq(m, (ptr + ROT_X_OFFSET) as u64, be32_bytes(sample.rot_x)),
            (ptr + ROT_Y_OFFSET) as u64,
            be32_bytes(sample.rot_y),
        ),
        (ptr + FOV_OFFSET) as u64,
        be32_bytes(fov),
    )
}

/// The control loop's own state: whether the overlay is active, and the
/// last field-of-view word read from the foreign structure while inactive.
pub struct ControlLoop {
    pub active: bool,
    pub cached_fov: u32,
}

impl ControlLoop {
    pub fn new() -> (r: ControlLoop)
        ensures
            r.active == false,
            r.cached_fov == 0,
    {
        ControlLoop { active: false, cached_fov: 0 }
    }

    /// Run one tick against one observation of the signals, the captured
    /// foreign structure pointer (zero while unresolved), and the current
    /// sample snapshot.
    pub fn tick<M: ForeignMemory>(
        &mut self,
        mem: &mut M,
        group: &mut PatchGroup,
        signals: ControlSignals,
        camera_ptr: u64,
        sample: &TelemetrySample,
    ) -> (r: Result<TickAction, TickError>)
        requires
            old(group).wf(),
            old(group).in_mem(old(mem).mem()),
            camera_ptr != 0 ==> camera_block_readable(old(mem).mem(), camera_ptr),
        ensures
            final(group).wf(),
            final(group).in_mem(final(mem).mem()),
            forall|a: u64, l: nat| final(mem).write_ok(a, l) == old(mem).write_ok(a, l),
            final(mem).mem().dom() == old(mem).mem().dom(),
            // Shutdown wins and changes nothing.
            signals.shutdown ==> r == Ok::<TickAction, TickError>(TickAction::Exit) && final(mem).mem() == old(mem).mem()
                && final(group).patches@ == old(group).patches@ && *final(self) == *old(self),
            // A toggle flips the flag and drives the group to match it.
            !signals.shutdown && signals.toggle ==> {
                &&& final(self).active == !old(self).active
                &&& final(self).cached_fov == old(self).cached_fov
                &&& (r is Ok <==> r == Ok::<TickAction, TickError>(TickAction::Toggled))
                &&& (!old(self).active ==> {
                    &&& (r is Ok <==> (forall|i: int|
                        0 <= i < old(group).patches@.len() && !(#[trigger] old(group).patches@[i]).applied() ==> old(mem).write_ok(
                            old(group).patches@[i].address,
                            old(group).patches@[i].len(),
                        )))
                    &&& (r is Ok ==> group_applied_to(
                        old(group).patches@,
                        final(group).patches@,
                        old(mem).mem(),
                        old(group).patches@.len() as int,
                    ) && mem_applied_to(
                        old(group).patches@,
                        old(mem).mem(),
                        final(mem).mem(),
                        old(group).patches@.len() as int,
                    ) && final(group).all_applied())
                    &&& (r matches Err(te) ==> te matches TickError::Patch(e) && (e matches
                        PatchError::PatchFailed { address } && exists|k: int|
                        {
                            &&& 0 <= k < old(group).patches@.len()
                            &&& !(#[trigger] old(group).patches@[k]).applied()
                            &&& address == old(group).patches@[k].address
                            &&& !old(mem).write_ok(
                                old(group).patches@[k].address,
                                old(group).patches@[k].len(),
                            )
                            &&& group_applied_to(
                                old(group).patches@,
                                final(group).patches@,
                                old(mem).mem(),
                                k,
                            )
                            &&& mem_applied_to(
                                old(group).patches@,
                                old(mem).mem(),
                                final(mem).mem(),
                                k,
                            )
                        }))
                })
                &&& (old(self).active ==> {
                    &&& (r is Ok <==> (forall|i: int|
                        0 <= i < old(group).patches@.len() && (#[trigger] old(group).patches@[i]).applied() ==> old(mem).write_ok(
                            old(group).patches@[i].address,
                            old(group).patches@[i].len(),
                        )))
                    &&& (r is Ok ==> group_reverted_to(
                        old(group).patches@,
                        final(group).patches@,
                        old(group).patches@.len() as int,
                    ) && mem_reverted_to(
                        old(group).patches@,
                        old(mem).mem(),
                        final(mem).mem(),
                        old(group).patches@.len() as int,
                    ) && final(group).none_applied())
                    &&& (r matches Err(te) ==> te matches TickError::Patch(e) && (e matches
                        PatchError::PatchFailed { address } && exists|k: int|
                        {
                            &&& 0 <= k < old(group).patches@.len()
                            &&& (#[trigger] old(group).patches@[k]).applied()
                            &&& address == old(group).patches@[k].address
                            &&& !old(mem).write_ok(
                                old(group).patches@[k].address,
                                old(group).patches@[k].len(),
                            )
                            &&& group_reverted_to(old(group).patches@, final(group).patches@, k)
                            &&& mem_reverted_to(
                                old(group).patches@,
                                old(mem).mem(),
                                final(mem).mem(),
                                k,
                            )
                        }))
                })
            },
            // No signal: the group and the flag stay as they are.
            !signals.shutdown && !signals.toggle ==> final(group).patches@ == old(group).patches@
                && final(self).active == old(self).active,
            // While the pointer is null the tick is a defined no-op.
            !signals.shutdown && !signals.toggle && camera_ptr == 0 ==> r == Ok::<TickAction, TickError>(TickAction::AwaitingCamera) && final(mem).mem() == old(mem).mem() && *final(self) == *old(self),
            // Inactive: cache the live field-of-view word, touch nothing.
            !signals.shutdown && !signals.toggle && camera_ptr != 0 && !old(self).active ==> r
                == Ok::<TickAction, TickError>(TickAction::CachedFov) && final(mem).mem() == old(mem).mem() && final(self).cached_fov == be32(
                read_seq(old(mem).mem(), (camera_ptr + FOV_OFFSET) as u64, 4),
            ),
            // Active: write the derived fields through the captured pointer.
            !signals.shutdown && !signals.toggle && camera_ptr != 0 && old(self).active ==> {
                &&& *final(self) == *old(self)
                &&& (r is Ok <==> old(mem).write_ok((camera_ptr + ROT_X_OFFSET) as u64, 4) && old(mem).write_ok((camera_ptr + ROT_Y_OFFSET) as u64, 4) && old(mem).write_ok(
                    (camera_ptr + FOV_OFFSET) as u64,
                    4,
                ))
                &&& (r is Ok ==> r == Ok::<TickAction, TickError>(TickAction::WroteCamera) && final(mem).mem() == camera_written(
                    old(mem).mem(),
                    camera_ptr,
                    *sample,
                    old(self).cached_fov,
                ))
                &&& (r is Err ==> (r matches Err(te) && te matches TickError::Memory(_)) && forall|
                    a: u64,
                |
                    old(mem).mem().dom().contains(a) && !(camera_ptr <= a < camera_ptr
                        + CAMERA_BLOCK_LEN) ==> final(mem).mem()[a] == old(mem).mem()[a])
            },
    {
        if signals.shutdown {
            return Ok(TickAction::Exit);
        }
        if signals.toggle {
            self.active = !self.active;
            let res = if self.active {
                group.apply(mem)
            } else {
                group.revert(mem)
            };
            return match res {
                Ok(()) => Ok(TickAction::Toggled),
                Err(e) => Err(TickError::Patch(e)),
            };
        }
        if camera_ptr == 0 {
            return Ok(TickAction::AwaitingCamera);
        }
        let fov_addr = camera_ptr + FOV_OFFSET;
        proof {
            assert forall|a: u64| fov_addr <= a < fov_addr + 4 implies old(mem).mem().dom().contains(a) by {
                assert(camera_ptr <= a < camera_ptr + CAMERA_BLOCK_LEN);
            }
        }
        if !self.active {
            let bytes = mem.read_bytes(fov_addr, 4);
            proof {
                assert(bytes@.subrange(0, 4) =~= bytes@);
            }
            let w = read_be32(&bytes, 0);
            self.cached_fov = w;
            return Ok(TickAction::CachedFov);
        }
        let rx_addr = camera_ptr + ROT_X_OFFSET;
        let ry_addr = camera_ptr + ROT_Y_OFFSET;
        proof {
            assert forall|a: u64| rx_addr <= a < rx_addr + 4 implies old(mem).mem().dom().contains(a) by {
                assert(camera_ptr <= a < camera_ptr + CAMERA_BLOCK_LEN);
            }
            assert forall|a: u64| ry_addr <= a < ry_addr + 4 implies old(mem).mem().dom().contains(a) by {
                assert(camera_ptr <= a < camera_ptr + CAMERA_BLOCK_LEN);
            }
        }
        let rx = write_be32(sample.rot_x);
        match mem.write_bytes(rx_addr, &rx) {
            Ok(()) => {},
            Err(e) => {
                return Err(TickError::Memory(e));
            },
        }
        let ry = write_be32(sample.rot_y);
        match mem.write_bytes(ry_addr, &ry) {
            Ok(()) => {},
            Err(e) => {
                proof {
                    assert forall|a: u64|
                        old(mem).mem().dom().contains(a) && !(camera_ptr <= a < camera_ptr
                            + CAMERA_BLOCK_LEN) implies mem.mem()[a] == old(mem).mem()[a] by {
                        assert(!(rx_addr <= a < rx_addr + 4));
                    }
                }
                return Err(TickError::Memory(e));
            },
        }
        let fv = write_be32(self.cached_fov);
        match mem.write_bytes(fov_addr, &fv) {
            Ok(()) => {},
            Err(e) => {
                proof {
                    assert forall|a: u64|
                        old(mem).mem().dom().contains(a) && !(camera_ptr <= a < camera_ptr
                            + CAMERA_BLOCK_LEN) implies mem.mem()[a] == old(mem).mem()[a] by {
                        assert(!(rx_addr <= a < rx_addr + 4));
                        assert(!(ry_addr <= a < ry_addr + 4));
                    }
                }
                return Err(TickError::Memory(e));
            },
        }
        Ok(TickAction::WroteCamera)
    }
}

/// The ten no-op overwrite regions of the patch group, relative to the
/// resolved addresses: four in the camera function (focus and
/// field-of-view stores) and six around the two rotation stores. Each pair
/// is an address and a length.
pub open spec fn camera_regions(o: CameraOffsets) -> Seq<(int, int)> {
    seq![
        (o.camera + 0x17, 10),
        (o.camera + 0x98, 10),
        (o.camera + 0x1DF, 10),
        (o.camera + 0xAF, 10),
        (o.rotation_vec1 as int, 10),
        (o.rotation_vec1 + 0x3E, 10),
        (o.rotation_vec1 + 0x9B, 10),
        (o.rotation_vec2 as int, 7),
        (o.rotation_vec2 - 0x14, 7),
        (o.rotation_vec2 - 0x28, 7),
    ]
}

/// The regions all fit the address space and are pairwise disjoint, so
/// they form a well-formed group.
pub open spec fn camera_group_feasible(o: CameraOffsets) -> bool {
    let rs = camera_regions(o);
    &&& forall|i: int| 0 <= i < rs.len() ==> 0 <= (#[trigger] rs[i]).0 && rs[i].0 + rs[i].1 <= u64::MAX + 1
    &&& forall|i: int, j: int|
        0 <= i < j < rs.len() ==> ((#[trigger] rs[i]).0 + rs[i].1 <= (#[trigger] rs[j]).0
            || rs[j].0 + rs[j].1 <= rs[i].0)
}

/// `len` no-op filler bytes.
pub fn nop_bytes(len: usize) -> (r: Vec<u8>)
    ensures
        r@.len() == len,
        forall|i: int| 0 <= i < len ==> r@[i] == 0x90u8,
{
    let mut r: Vec<u8> = Vec::new();
    let mut i: usize = 0;
    while i < len
        invariant
            i <= len,
            r@.len() == i,
            forall|j: int| 0 <= j < i ==> r@[j] == 0x90u8,
        decreases len - i,
    {
        r.push(0x90);
        i = i + 1;
    }
    r
}

/// `base + delta`, if the region of `len` bytes there fits the address
/// space.
fn region_above(base: u64, delta: u64, len: u64) -> (r: Option<u64>)
    requires
        1 <= len,
    ensures
        r matches Some(a) ==> a == base + delta && base + delta + len <= u64::MAX + 1,
        r is None <==> base + delta + len > u64::MAX + 1,
{
    if base <= u64::MAX - delta {
        let a = base + delta;
        if len - 1 <= u64::MAX - a {
            Some(a)
        } else {
            None
        }
    } else {
        None
    }
}

/// `base - delta`, if it does not underflow and the region of `len` bytes
/// there fits the address space.
fn region_below(base: u64, delta: u64, len: u64) -> (r: Option<u64>)
    requires
        1 <= len,
    ensures
        r matches Some(a) ==> a == base - delta && 0 <= base - delta && base - delta + len
            <= u64::MAX + 1,
        r is None <==> base - delta < 0 || base - delta + len > u64::MAX + 1,
{
    if base >= delta {
        let a = base - delta;
        if len - 1 <= u64::MAX - a {
            Some(a)
        } else {
            None
        }
    } else {
        None
    }
}

/// Build the no-op patch group for the resolved addresses: every member
/// inert, each holding no-op filler for its region. Refused when a region
/// leaves the address space or two regions overlap, which cannot happen
/// for addresses a real build resolves to.
pub fn camera_patch_group(offsets: &CameraOffsets) -> (r: Option<PatchGroup>)
    ensures
        r is Some <==> camera_group_feasible(*offsets),
        r matches Some(g) ==> {
            &&& g.wf()
            &&& g.none_applied()
            &&& g.patches@.len() == camera_regions(*offsets).len()
            &&& forall|k: int|
                0 <= k < g.patches@.len() ==> (#[trigger] g.patches@[k]).address
                    == camera_regions(*offsets)[k].0 && g.patches@[k].len()
                    == camera_regions(*offsets)[k].1
            &&& forall|k: int, t: int|
                0 <= k < g.patches@.len() && 0 <= t < g.patches@[k].len() ==> (#[trigger] g.patches@[k].replacement@[t]) == 0x90u8
        },
{
    let ghost rs = camera_regions(*offsets);
    let a0 = region_above(offsets.camera, 0x17, 10);
    let a1 = region_above(offsets.camera, 0x98, 10);
    let a2 = region_above(offsets.camera, 0x1DF, 10);
    let a3 = region_above(offsets.camera, 0xAF, 10);
    let a4 = region_above(offsets.rotation_vec1, 0, 10);
    let a5 = region_above(offsets.rotation_vec1, 0x3E, 10);
    let a6 = region_above(offsets.rotation_vec1, 0x9B, 10);
    let a7 = region_above(offsets.rotation_vec2, 0, 7);
    let a8 = region_below(offsets.rotation_vec2, 0x14, 7);
    let a9 = region_below(offsets.rotation_vec2, 0x28, 7);
    let addrs: [Option<u64>; 10] = [a0, a1, a2, a3, a4, a5, a6, a7, a8, a9];
    let lens: [u64; 10] = [10, 10, 10, 10, 10, 10, 10, 7, 7, 7];
    let mut patches: Vec<Patch> = Vec::new();
    let mut k: usize = 0;
    while k < 10
        invariant
            k <= 10,
            rs == camera_regions(*offsets),
            rs.len() == 10,
            addrs@[0] == a0 && addrs@[1] == a1 && addrs@[2] == a2 && addrs@[3] == a3 && addrs@[4]
                == a4 && addrs@[5] == a5 && addrs@[6] == a6 && addrs@[7] == a7 && addrs@[8] == a8
                && addrs@[9] == a9,
            forall|t: int|
                0 <= t < 10 ==> ((#[trigger] addrs@[t]) matches Some(a) ==> a == rs[t].0 && rs[t].0
                    + rs[t].1 <= u64::MAX + 1 && lens@[t] == rs[t].1),
            forall|t: int|
                0 <= t < 10 ==> ((#[trigger] addrs@[t]) is None ==> !(0 <= rs[t].0 && rs[t].0
                    + rs[t].1 <= u64::MAX + 1)),
            patches@.len() == k,
            forall|t: int|
                0 <= t < k ==> (#[trigger] patches@[t]).address == rs[t].0 && patches@[t].len()
                    == rs[t].1 && patches@[t].saved is None && patches@[t].wf(),
            forall|t: int| 0 <= t < k ==> 0 <= (#[trigger] rs[t]).0 && rs[t].0 + rs[t].1 <= u64::MAX + 1,
            forall|t: int, u: int|
                0 <= t < k && 0 <= u < patches@[t].len() ==> (#[trigger] patches@[t].replacement@[u]) == 0x90u8,
        decreases 10 - k,
    {
        let addr = match addrs[k] {
            Some(a) => a,
            None => {
                proof {
                    assert(!(0 <= rs[k as int].0 && rs[k as int].0 + rs[k as int].1 <= u64::MAX
                        + 1));
                    assert(!camera_group_feasible(*offsets));
                }
                return None;
            },
        };
        let len = lens[k];
        proof {
            assert(addrs@[k as int] matches Some(a) && a == rs[k as int].0);
            assert(len == rs[k as int].1);
            assert(1 <= len <= 10);
            assert(0 <= rs[k as int].0 && rs[k as int].0 + rs[k as int].1 <= u64::MAX + 1);
        }
        let bytes = nop_bytes(len as usize);
        let p = Patch::new(addr, bytes);
        patches.push(p);
        k = k + 1;
    }
    let ok = check_group(&patches);
    proof {
        assert forall|t: int| 0 <= t < 10 implies (#[trigger] patches@[t]).wf() by {
            assert(patches@[t].address == rs[t].0 && patches@[t].len() == rs[t].1);
        }
        if ok {
            assert forall|t: int, u: int| 0 <= t < u < 10 implies ((#[trigger] rs[t]).0 + rs[t].1
                <= (#[trigger] rs[u]).0 || rs[u].0 + rs[u].1 <= rs[t].0) by {
                assert(crate::patch::patches_disjoint(patches@[t], patches@[u]));
            }
            assert(camera_group_feasible(*offsets));
        } else {
            assert(!crate::patch::seq_wf(patches@));
            let (t, u) = choose|t: int, u: int|
                0 <= t < u < patches@.len() && !crate::patch::patches_disjoint(
                    #[trigger] patches@[t],
                    #[trigger] patches@[u],
                );
            assert(!(rs[t].0 + rs[t].1 <= rs[u].0 || rs[u].0 + rs[u].1 <= rs[t].0));
            assert(!camera_group_feasible(*offsets));
        }
    }
    if ok {
        Some(PatchGroup::new(patches))
    } else {
        None
    }
}

} // verus!
