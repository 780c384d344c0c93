//! A detour: a one-shot redirect installed at a function's entry point.
//!
//! `install` snapshots the trampoline region at the target, then overwrites
//! it with an absolute jump to the replacement logic, padding the rest of the
//! region with no-op filler so the instruction stream stays well formed.
//! `uninstall` writes the snapshot back, restoring the original bytes
//! exactly; nothing outside the trampoline region is ever touched.

use crate::codec::{le_val, write_u64_le};
use crate::memory::{mem_has_range, read_seq, write_seq, ForeignMemory, MemoryError};
use vstd::prelude::*;

verus! {

/// Shortest trampoline region: an absolute 64-bit indirect jump.
pub const JUMP_SEQUENCE_LEN: usize = 14;

/// `code` is the jump sequence redirecting to `replacement`, padded to `len`
/// bytes with no-op filler: an indirect jump through the 8-byte absolute
/// address that immediately follows it, then `0x90` bytes.
pub open spec fn is_detour_code(code: Seq<u8>, replacement: u64, len: nat) -> bool {
    &&& code.len() == len
    &&& code[0] == 0xFF
    &&& code[1] == 0x25
    &&& code[2] == 0x00 && code[3] == 0x00 && code[4] == 0x00 && code[5] == 0x00
    &&& le_val(code.subrange(6, 14)) == replacement
    &&& forall|i: int| 14 <= i < len ==> code[i] == 0x90
}

/// Build the detour code for `replacement`, `len` bytes long.
pub fn build_detour_code(replacement: u64, len: usize) -> (r: Vec<u8>)
    requires
        len >= JUMP_SEQUENCE_LEN,
    ensures
        is_detour_code(r@, replacement, len as nat),
{
    let mut r: Vec<u8> = Vec::new();
    r.push(0xFF);
    r.push(0x25);
    r.push(0x00);
    r.push(0x00);
    r.push(0x00);
    r.push(0x00);
    let addr_bytes = write_u64_le(replacement);
    let mut i: usize = 0;
    while i < 8
        invariant
            i <= 8,
            addr_bytes@.len() == 8,
            le_val(addr_bytes@) == replacement,
            r@.len() == 6 + i,
            r@[0] == 0xFF && r@[1] == 0x25,
            r@[2] == 0x00 && r@[3] == 0x00 && r@[4] == 0x00 && r@[5] == 0x00,
            forall|j: int| 0 <= j < i ==> r@[6 + j] == addr_bytes@[j],
        decreases 8 - i,
    {
        r.push(addr_bytes[i]);
        i = i + 1;
    }
    proof {
        assert(r@.subrange(6, 14) =~= addr_bytes@);
    }
    let mut k: usize = 14;
    while k < len
        invariant
            14 <= k <= len,
            r@.len() == k,
            r@[0] == 0xFF && r@[1] == 0x25,
            r@[2] == 0x00 && r@[3] == 0x00 && r@[4] == 0x00 && r@[5] == 0x00,
            r@.subrange(6, 14) == addr_bytes@,
            le_val(addr_bytes@) == replacement,
            forall|j: int| 14 <= j < k ==> r@[j] == 0x90,
        decreases len - k,
    {
        r.push(0x90);
        proof {
            assert(r@.subrange(6, 14) =~= addr_bytes@);
        }
        k = k + 1;
    }
    r
}

/// A one-shot redirect from `target` to `replacement`. `original` holds the
/// displaced trampoline bytes while the detour is active and is the only
/// source of truth for reversal.
pub struct Detour {
    pub target: u64,
    pub trampoline_len: usize,
    pub replacement: u64,
    pub original: Option<Vec<u8>>,
}

impl Detour {
    pub open spec fn active(self) -> bool {
        self.original is Some
    }

    pub open spec fn wf(self) -> bool {
        &&& self.trampoline_len >= JUMP_SEQUENCE_LEN
        &&& self.target + self.trampoline_len <= u64::MAX + 1
        &&& match self.original {
            Some(s) => s@.len() == self.trampoline_len,
            None => true,
        }
    }

    pub fn new(target: u64, trampoline_len: usize, replacement: u64) -> (r: Detour)
        requires
            trampoline_len >= JUMP_SEQUENCE_LEN,
            target + trampoline_len <= u64::MAX + 1,
        ensures
            r.target == target,
            r.trampoline_len == trampoline_len,
            r.replacement == replacement,
            r.original is None,
            r.wf(),
    {
        Detour { target, trampoline_len, replacement, original: None }
    }

    /// Install the redirect: snapshot the trampoline region, then overwrite
    /// it with the jump sequence. On a refused write nothing changes and the
    /// detour stays inert.
    pub fn install<M: ForeignMemory>(&mut self, mem: &mut M) -> (r: Result<(), MemoryError>)
        requires
            old(self).wf(),
            !old(self).active(),
            mem_has_range(old(mem).mem(), old(self).target, old(self).trampoline_len as nat),
        ensures
            final(self).target == old(self).target,
            final(self).trampoline_len == old(self).trampoline_len,
            final(self).replacement == old(self).replacement,
            final(self).wf(),
            forall|a: u64, l: nat| final(mem).write_ok(a, l) == old(mem).write_ok(a, l),
            r is Ok <==> old(mem).write_ok(old(self).target, old(self).trampoline_len as nat),
            r is Ok ==> {
                &&& final(self).active()
                &&& final(self).original matches Some(s) && s@ == read_seq(
                    old(mem).mem(),
                    old(self).target,
                    old(self).trampoline_len as nat,
                )
                &&& final(mem).mem().dom() == old(mem).mem().dom()
                &&& is_detour_code(
                    read_seq(final(mem).mem(), old(self).target, old(self).trampoline_len as nat),
                    old(self).replacement,
                    old(self).trampoline_len as nat,
                )
                &&& forall|a: u64|
                    old(mem).mem().dom().contains(a) && !(old(self).target <= a < old(self).target
                        + old(self).trampoline_len) ==> final(mem).mem()[a] == old(mem).mem()[a]
            },
            r is Err ==> final(mem).mem() == old(mem).mem() && !final(self).active(),
    {
        let code = build_detour_code(self.replacement, self.trampoline_len);
        let snapshot = mem.read_bytes(self.target, self.trampoline_len);
        match mem.write_bytes(self.target, &code) {
            Ok(()) => {
                self.original = Some(snapshot);
                proof {
                    let t = old(self).target;
                    let n = old(self).trampoline_len as nat;
                    let m1 = mem.mem();
                    assert forall|j: int| 0 <= j < n implies read_seq(m1, t, n)[j] == code@[j] by {
                        assert(m1 == write_seq(old(mem).mem(), t, code@));
                        assert(old(mem).mem().dom().contains((t + j) as u64));
                        assert(((t + j) as u64) - t == j);
                    }
                    assert(read_seq(m1, t, n) =~= code@);
                }
                Ok(())
            },
            Err(e) => Err(e),
        }
    }

    /// Remove the redirect: write the snapshot back and return to inert.
    /// On a refused write nothing changes and the detour stays active.
    pub fn uninstall<M: ForeignMemory>(&mut self, mem: &mut M) -> (r: Result<(), MemoryError>)
        requires
            old(self).wf(),
            old(self).active(),
            mem_has_range(old(mem).mem(), old(self).target, old(self).trampoline_len as nat),
        ensures
            final(self).target == old(self).target,
            final(self).trampoline_len == old(self).trampoline_len,
            final(self).replacement == old(self).replacement,
            final(self).wf(),
            forall|a: u64, l: nat| final(mem).write_ok(a, l) == old(mem).write_ok(a, l),
            r is Ok <==> old(mem).write_ok(old(self).target, old(self).trampoline_len as nat),
            r is Ok ==> {
                &&& !final(self).active()
                &&& final(mem).mem() == write_seq(
                    old(mem).mem(),
                    old(self).target,
                    old(self).original.unwrap()@,
                )
            },
            r is Err ==> final(mem).mem() == old(mem).mem() && *final(self) == *old(self),
    {
        let mut taken: Option<Vec<u8>> = None;
        core::mem::swap(&mut taken, &mut self.original);
        let saved = match taken {
            Some(s) => s,
            None => {
                proof {
                    assert(false);
                }
                Vec::new()
            },
        };
        match mem.write_bytes(self.target, &saved) {
            Ok(()) => Ok(()),
            Err(e) => {
                self.original = Some(saved);
                Err(e)
            },
        }
    }
}

/// Installing a detour and then uninstalling it restores every byte of the
/// original memory: inside the trampoline region the snapshot comes back,
/// and no byte outside the region was ever changed.
pub proof fn lemma_install_uninstall_restores(
    m0: Map<u64, u8>,
    m1: Map<u64, u8>,
    m2: Map<u64, u8>,
    target: u64,
    len: nat,
    saved: Seq<u8>,
)
    requires
        mem_has_range(m0, target, len),
        saved == read_seq(m0, target, len),
        m1.dom() == m0.dom(),
        forall|a: u64| m0.dom().contains(a) && !(target <= a < target + len) ==> m1[a] == m0[a],
        m2 == write_seq(m1, target, saved),
    ensures
        m2 == m0,
{
    crate::memory::lemma_write_seq_dom(m1, target, saved);
    assert forall|a: u64| m2.dom().contains(a) implies m2[a] == m0[a] by {
        if target <= a < target + len {
            assert(m2[a] == saved[a - target]);
            assert(saved[a - target] == m0[(target + (a - target)) as u64]);
            assert((target + (a - target)) as u64 == a);
        } else {
            assert(m2[a] == m1[a]);
        }
    }
    assert(m2 =~= m0);
}

} // verus!
