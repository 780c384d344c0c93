//! Groups of independently revertible byte patches over foreign memory.
//!
//! A `Patch` is one overwrite region: an address, the replacement bytes, and
//! (once applied) the bytes it displaced. A `PatchGroup` toggles a list of
//! disjoint patches as one logical unit: `apply` overwrites every member that
//! is not yet applied after saving the bytes it replaces, `revert` writes the
//! saved bytes back. A failed write aborts the remaining members and leaves
//! the earlier ones applied; nothing is rolled back.

use crate::memory::{mem_has_range, read_seq, ForeignMemory};
use vstd::prelude::*;

verus! {

#[derive(Clone, Copy, Debug, PartialEq, Eq, Structural)]
pub enum PatchError {
    PatchFailed { address: u64 },
}

/// One byte-overwrite region. `saved` is `Some` exactly while the patch is
/// applied, and then holds the displaced bytes: the only source of truth for
/// reversal.
pub struct Patch {
    pub address: u64,
    pub replacement: Vec<u8>,
    pub saved: Option<Vec<u8>>,
}

impl Patch {
    pub open spec fn applied(self) -> bool {
        self.saved is Some
    }

    pub open spec fn len(self) -> nat {
        self.replacement@.len()
    }

    pub open spec fn covers(self, a: u64) -> bool {
        self.address <= a < self.address + self.len()
    }

    pub open spec fn wf(self) -> bool {
        &&& 0 < self.replacement@.len()
        &&& self.address + self.replacement@.len() <= u64::MAX + 1
        &&& match self.saved {
            Some(s) => s@.len() == self.replacement@.len(),
            None => true,
        }
    }

    pub fn new(address: u64, replacement: Vec<u8>) -> (r: Patch)
        requires
            0 < replacement@.len(),
            address + replacement@.len() <= u64::MAX + 1,
        ensures
            r.address == address,
            r.replacement == replacement,
            r.saved is None,
            r.wf(),
    {
        Patch { address, replacement, saved: None }
    }
}

/// The two regions do not overlap.
pub open spec fn patches_disjoint(p: Patch, q: Patch) -> bool {
    p.address + p.len() <= q.address || q.address + q.len() <= p.address
}

pub open spec fn seq_wf(ps: Seq<Patch>) -> bool {
    &&& forall|i: int| 0 <= i < ps.len() ==> (#[trigger] ps[i]).wf()
    &&& forall|i: int, j: int|
        0 <= i < j < ps.len() ==> patches_disjoint(#[trigger] ps[i], #[trigger] ps[j])
}

pub open spec fn seq_in_mem(ps: Seq<Patch>, m: Map<u64, u8>) -> bool {
    forall|i: int|
        0 <= i < ps.len() ==> mem_has_range(m, (#[trigger] ps[i]).address, ps[i].len())
}

/// How the members of a group relate after `apply` has processed the first
/// `k` members against a memory that held `m0`: addresses and replacement
/// bytes are untouched; a member that was already applied keeps its saved
/// bytes; a processed member that was not applied now saves the bytes that
/// stood at its region in `m0`; members from `k` on are untouched.
pub open spec fn group_applied_to(ps0: Seq<Patch>, ps1: Seq<Patch>, m0: Map<u64, u8>, k: int) -> bool {
    &&& ps1.len() == ps0.len()
    &&& forall|i: int|
        0 <= i < ps0.len() ==> (#[trigger] ps1[i]).address == ps0[i].address && ps1[i].replacement
            == ps0[i].replacement
    &&& forall|i: int| k <= i < ps0.len() ==> (#[trigger] ps1[i]).saved == ps0[i].saved
    &&& forall|i: int|
        0 <= i < k && (#[trigger] ps0[i]).applied() ==> ps1[i].saved == ps0[i].saved
    &&& forall|i: int|
        0 <= i < k && !(#[trigger] ps0[i]).applied() ==> (ps1[i].saved matches Some(s) && s@
            == read_seq(m0, ps0[i].address, ps0[i].len()))
}

/// Some member among the first `k` that was not yet applied covers `a`.
pub open spec fn newly_covered(ps: Seq<Patch>, k: int, a: u64) -> bool {
    exists|i: int| 0 <= i < k && !(#[trigger] ps[i]).applied() && ps[i].covers(a)
}

/// How memory relates after `apply` has processed the first `k` members:
/// a byte covered by a member that was written holds that member's
/// replacement byte; every other byte is unchanged; the domain is unchanged.
pub open spec fn mem_applied_to(ps0: Seq<Patch>, m0: Map<u64, u8>, m1: Map<u64, u8>, k: int) -> bool {
    &&& m1.dom() == m0.dom()
    &&& forall|i: int, a: u64|
        0 <= i < k && !ps0[i].applied() && (#[trigger] ps0[i].covers(a)) ==> m1[a]
            == ps0[i].replacement@[a - ps0[i].address]
    &&& forall|a: u64|
        m0.dom().contains(a) && !newly_covered(ps0, k, a) ==> m1[a] == m0[a]
}

/// How the members relate after `revert` has processed the first `k`
/// members: a processed member that was applied is cleared; everything else
/// is untouched.
pub open spec fn group_reverted_to(ps0: Seq<Patch>, ps1: Seq<Patch>, k: int) -> bool {
    &&& ps1.len() == ps0.len()
    &&& forall|i: int|
        0 <= i < ps0.len() ==> (#[trigger] ps1[i]).address == ps0[i].address && ps1[i].replacement
            == ps0[i].replacement
    &&& forall|i: int| k <= i < ps0.len() ==> (#[trigger] ps1[i]).saved == ps0[i].saved
    &&& forall|i: int| 0 <= i < k ==> (#[trigger] ps1[i]).saved is None
}

/// Some member among the first `k` that was applied covers `a`.
pub open spec fn restored_covered(ps: Seq<Patch>, k: int, a: u64) -> bool {
    exists|i: int| 0 <= i < k && (#[trigger] ps[i]).applied() && ps[i].covers(a)
}

/// How memory relates after `revert` has processed the first `k` members:
/// a byte covered by a member that was applied holds that member's saved
/// byte again; every other byte is unchanged; the domain is unchanged.
pub open spec fn mem_reverted_to(ps0: Seq<Patch>, m0: Map<u64, u8>, m1: Map<u64, u8>, k: int) -> bool {
    &&& m1.dom() == m0.dom()
    &&& forall|i: int, a: u64|
        0 <= i < k && ps0[i].applied() && (#[trigger] ps0[i].covers(a)) ==> m1[a]
            == ps0[i].saved.unwrap()@[a - ps0[i].address]
    &&& forall|a: u64|
        m0.dom().contains(a) && !restored_covered(ps0, k, a) ==> m1[a] == m0[a]
}

/// An ordered group of disjoint patches toggled as one logical unit.
pub struct PatchGroup {
    pub patches: Vec<Patch>,
}

impl PatchGroup {
    pub open spec fn wf(self) -> bool {
        seq_wf(self.patches@)
    }

    pub open spec fn in_mem(self, m: Map<u64, u8>) -> bool {
        seq_in_mem(self.patches@, m)
    }

    pub open spec fn all_applied(self) -> bool {
        forall|i: int| 0 <= i < self.patches@.len() ==> (#[trigger] self.patches@[i]).applied()
    }

    pub open spec fn none_applied(self) -> bool {
        forall|i: int| 0 <= i < self.patches@.len() ==> !(#[trigger] self.patches@[i]).applied()
    }

    pub fn new(patches: Vec<Patch>) -> (r: PatchGroup)
        ensures
            r.patches == patches,
    {
        PatchGroup { patches }
    }

    /// Apply every member that is not yet applied, in order, saving the
    /// displaced bytes first. A member whose write is refused aborts the
    /// remaining members: the earlier members stay applied, nothing is
    /// rolled back, and the error names the failing member's address.
    /// Applying a fully applied group changes nothing.
    pub fn apply<M: ForeignMemory>(&mut self, mem: &mut M) -> (r: Result<(), PatchError>)
        requires
            old(self).wf(),
            old(self).in_mem(old(mem).mem()),
        ensures
            final(self).wf(),
            final(self).in_mem(final(mem).mem()),
            forall|a: u64, l: nat| final(mem).write_ok(a, l) == old(mem).write_ok(a, l),
            r is Ok <==> (forall|i: int|
                0 <= i < old(self).patches@.len() && !(#[trigger] old(self).patches@[i]).applied()
                    ==> old(mem).write_ok(old(self).patches@[i].address, old(self).patches@[i].len())),
            r is Ok ==> {
                &&& group_applied_to(old(self).patches@, final(self).patches@, old(mem).mem(), old(self).patches@.len() as int)
                &&& mem_applied_to(old(self).patches@, old(mem).mem(), final(mem).mem(), old(self).patches@.len() as int)
                &&& final(self).all_applied()
            },
            r is Ok && old(self).all_applied() ==> final(mem).mem() == old(mem).mem() && final(self).patches@ == old(self).patches@,
            r matches Err(e) ==> (e matches PatchError::PatchFailed { address } && exists|k: int| {
                &&& 0 <= k < old(self).patches@.len()
                &&& !(#[trigger] old(self).patches@[k]).applied()
                &&& address == old(self).patches@[k].address
                &&& !old(mem).write_ok(old(self).patches@[k].address, old(self).patches@[k].len())
                &&& group_applied_to(old(self).patches@, final(self).patches@, old(mem).mem(), k)
                &&& mem_applied_to(old(self).patches@, old(mem).mem(), final(mem).mem(), k)
            }),
    {
        let ghost ps0 = self.patches@;
        let ghost m0 = mem.mem();
        let n = self.patches.len();
        let mut i: usize = 0;
        while i < n
            invariant
                i <= n,
                n == ps0.len(),
                ps0 == old(self).patches@,
                m0 == old(mem).mem(),
                seq_wf(ps0),
                seq_in_mem(ps0, m0),
                self.patches@.len() == n,
                forall|j: int|
                    0 <= j < n ==> (#[trigger] self.patches@[j]).address == ps0[j].address
                        && self.patches@[j].replacement == ps0[j].replacement,
                forall|j: int| i <= j < n ==> (#[trigger] self.patches@[j]).saved == ps0[j].saved,
                forall|j: int|
                    0 <= j < i && (#[trigger] ps0[j]).applied() ==> self.patches@[j].saved
                        == ps0[j].saved,
                forall|j: int|
                    0 <= j < i && !(#[trigger] ps0[j]).applied() ==> (self.patches@[j].saved
                        matches Some(s) && s@ == read_seq(m0, ps0[j].address, ps0[j].len())),
                forall|j: int|
                    0 <= j < i && !ps0[j].applied() ==> old(mem).write_ok(
                        (#[trigger] ps0[j]).address,
                        ps0[j].len(),
                    ),
                mem.mem().dom() == m0.dom(),
                forall|j: int, a: u64|
                    0 <= j < i && !ps0[j].applied() && (#[trigger] ps0[j].covers(a)) ==> mem.mem()[a]
                        == ps0[j].replacement@[a - ps0[j].address],
                forall|a: u64|
                    m0.dom().contains(a) && !newly_covered(ps0, i as int, a) ==> mem.mem()[a]
                        == m0[a],
                forall|a: u64, l: nat| mem.write_ok(a, l) == old(mem).write_ok(a, l),
            decreases n - i,
        {
            let already = self.patches[i].saved.is_some();
            if !already {
                let p_addr = self.patches[i].address;
                let p_len = self.patches[i].replacement.len();
                proof {
                    assert(ps0[i as int].wf());
                    assert(mem_has_range(m0, ps0[i as int].address, ps0[i as int].len()));
                    assert(mem_has_range(mem.mem(), p_addr, p_len as nat));
                }
                let cur = mem.read_bytes(p_addr, p_len);
                proof {
                    assert forall|t: int| 0 <= t < p_len implies #[trigger] mem.mem()[(p_addr
                        + t) as u64] == m0[(p_addr + t) as u64] by {
                        let a = (p_addr + t) as u64;
                        assert(ps0[i as int].covers(a));
                        if newly_covered(ps0, i as int, a) {
                            let j = choose|j: int|
                                0 <= j < i && !(#[trigger] ps0[j]).applied() && ps0[j].covers(a);
                            assert(patches_disjoint(ps0[j], ps0[i as int]));
                            assert(false);
                        }
                    }
                    assert(cur@ =~= read_seq(m0, p_addr, p_len as nat));
                }
                let res = mem.write_bytes(p_addr, &self.patches[i].replacement);
                match res {
                    Ok(()) => {
                        self.patches[i].saved = Some(cur);
                    },
                    Err(_) => {
                        proof {
                            let k = i as int;
                            assert(self.patches@[k].saved == ps0[k].saved);
                            assert(!ps0[k].applied());
                            assert(p_addr == ps0[k].address && p_len as nat == ps0[k].len());
                            assert(!old(mem).write_ok(ps0[k].address, ps0[k].len()));
                            assert(group_applied_to(ps0, self.patches@, m0, k));
                            assert(mem_applied_to(ps0, m0, mem.mem(), k));
                            assert(!(forall|j: int|
                                0 <= j < ps0.len() && !(#[trigger] ps0[j]).applied() ==> old(
                                    mem,
                                ).write_ok(ps0[j].address, ps0[j].len())));
                        }
                        return Err(PatchError::PatchFailed { address: p_addr });
                    },
                }
                proof {
                    assert forall|j: int, a: u64|
                        0 <= j < i + 1 && !ps0[j].applied() && (#[trigger] ps0[j].covers(a))
                            implies mem.mem()[a] == ps0[j].replacement@[a - ps0[j].address] by {
                        if j < i {
                            assert(patches_disjoint(ps0[j], ps0[i as int]));
                            assert(!(p_addr <= a < p_addr + p_len));
                        } else {
                            assert(ps0[i as int].covers(a));
                        }
                    }
                    assert forall|a: u64|
                        m0.dom().contains(a) && !newly_covered(ps0, i + 1, a) implies mem.mem()[a]
                            == m0[a] by {
                        assert(!newly_covered(ps0, i as int, a));
                        assert(!(ps0[i as int].covers(a)));
                    }
                }
            } else {
                proof {
                    assert forall|a: u64|
                        m0.dom().contains(a) && !newly_covered(ps0, i + 1, a) implies mem.mem()[a]
                            == m0[a] by {
                        assert(!newly_covered(ps0, i as int, a));
                    }
                }
            }
            i = i + 1;
        }
        proof {
            if old(self).all_applied() {
                assert forall|a: u64| m0.dom().contains(a) implies mem.mem()[a] == m0[a] by {
                    assert(!newly_covered(ps0, n as int, a));
                }
                assert(mem.mem() =~= m0);
                assert(self.patches@ =~= ps0);
            }
        }
        Ok(())
    }

    /// Write every applied member's saved bytes back, in order, and clear
    /// them. A member whose write is refused aborts the remaining members:
    /// the earlier members stay reverted. Reverting a group with nothing
    /// applied changes nothing.
    pub fn revert<M: ForeignMemory>(&mut self, mem: &mut M) -> (r: Result<(), PatchError>)
        requires
            old(self).wf(),
            old(self).in_mem(old(mem).mem()),
        ensures
            final(self).wf(),
            final(self).in_mem(final(mem).mem()),
            forall|a: u64, l: nat| final(mem).write_ok(a, l) == old(mem).write_ok(a, l),
            r is Ok <==> (forall|i: int|
                0 <= i < old(self).patches@.len() && (#[trigger] old(self).patches@[i]).applied()
                    ==> old(mem).write_ok(old(self).patches@[i].address, old(self).patches@[i].len())),
            r is Ok ==> {
                &&& group_reverted_to(old(self).patches@, final(self).patches@, old(self).patches@.len() as int)
                &&& mem_reverted_to(old(self).patches@, old(mem).mem(), final(mem).mem(), old(self).patches@.len() as int)
                &&& final(self).none_applied()
            },
            r is Ok && old(self).none_applied() ==> final(mem).mem() == old(mem).mem() && final(self).patches@ == old(self).patches@,
            r matches Err(e) ==> (e matches PatchError::PatchFailed { address } && exists|k: int| {
                &&& 0 <= k < old(self).patches@.len()
                &&& (#[trigger] old(self).patches@[k]).applied()
                &&& address == old(self).patches@[k].address
                &&& !old(mem).write_ok(old(self).patches@[k].address, old(self).patches@[k].len())
                &&& group_reverted_to(old(self).patches@, final(self).patches@, k)
                &&& mem_reverted_to(old(self).patches@, old(mem).mem(), final(mem).mem(), k)
            }),
    {
        let ghost ps0 = self.patches@;
        let ghost m0 = mem.mem();
        let n = self.patches.len();
        let mut i: usize = 0;
        while i < n
            invariant
                i <= n,
                n == ps0.len(),
                ps0 == old(self).patches@,
                m0 == old(mem).mem(),
                seq_wf(ps0),
                seq_in_mem(ps0, m0),
                self.patches@.len() == n,
                forall|j: int|
                    0 <= j < n ==> (#[trigger] self.patches@[j]).address == ps0[j].address
                        && self.patches@[j].replacement == ps0[j].replacement,
                forall|j: int| i <= j < n ==> (#[trigger] self.patches@[j]).saved == ps0[j].saved,
                forall|j: int| 0 <= j < i ==> (#[trigger] self.patches@[j]).saved is None,
                forall|j: int|
                    0 <= j < i && ps0[j].applied() ==> old(mem).write_ok(
                        (#[trigger] ps0[j]).address,
                        ps0[j].len(),
                    ),
                mem.mem().dom() == m0.dom(),
                forall|j: int, a: u64|
                    0 <= j < i && ps0[j].applied() && (#[trigger] ps0[j].covers(a)) ==> mem.mem()[a]
                        == ps0[j].saved.unwrap()@[a - ps0[j].address],
                forall|a: u64|
                    m0.dom().contains(a) && !restored_covered(ps0, i as int, a) ==> mem.mem()[a]
                        == m0[a],
                forall|a: u64, l: nat| mem.write_ok(a, l) == old(mem).write_ok(a, l),
            decreases n - i,
        {
            let applied_now = self.patches[i].saved.is_some();
            if applied_now {
                let p_addr = self.patches[i].address;
                proof {
                    assert(ps0[i as int].wf());
                    assert(mem_has_range(m0, ps0[i as int].address, ps0[i as int].len()));
                }
                let mut taken: Option<Vec<u8>> = None;
                core::mem::swap(&mut taken, &mut self.patches[i].saved);
                let saved_bytes = match taken {
                    Some(s) => s,
                    None => {
                        proof {
                            assert(false);
                        }
                        Vec::new()
                    },
                };
                let res = mem.write_bytes(p_addr, &saved_bytes);
                match res {
                    Ok(()) => {},
                    Err(_) => {
                        self.patches[i].saved = Some(saved_bytes);
                        proof {
                            let k = i as int;
                            assert(self.patches@[k].saved == ps0[k].saved);
                            assert(forall|j: int|
                                i <= j < n ==> (#[trigger] self.patches@[j]).saved == ps0[j].saved);
                            assert(ps0[k].applied());
                            assert(p_addr == ps0[k].address);
                            assert(!old(mem).write_ok(ps0[k].address, ps0[k].len()));
                            assert(group_reverted_to(ps0, self.patches@, k));
                            assert(mem_reverted_to(ps0, m0, mem.mem(), k));
                            assert(!(forall|j: int|
                                0 <= j < ps0.len() && (#[trigger] ps0[j]).applied() ==> old(
                                    mem,
                                ).write_ok(ps0[j].address, ps0[j].len())));
                        }
                        return Err(PatchError::PatchFailed { address: p_addr });
                    },
                }
                proof {
                    assert forall|j: int, a: u64|
                        0 <= j < i + 1 && ps0[j].applied() && (#[trigger] ps0[j].covers(a))
                            implies mem.mem()[a] == ps0[j].saved.unwrap()@[a - ps0[j].address] by {
                        if j < i {
                            assert(patches_disjoint(ps0[j], ps0[i as int]));
                            assert(!(ps0[i as int].covers(a)));
                        } else {
                            assert(ps0[i as int].covers(a));
                        }
                    }
                    assert forall|a: u64|
                        m0.dom().contains(a) && !restored_covered(ps0, i + 1, a) implies mem.mem()[a]
                            == m0[a] by {
                        assert(!restored_covered(ps0, i as int, a));
                        assert(!(ps0[i as int].covers(a)));
                    }
                }
            } else {
                proof {
                    assert forall|a: u64|
                        m0.dom().contains(a) && !restored_covered(ps0, i + 1, a) implies mem.mem()[a]
                            == m0[a] by {
                        assert(!restored_covered(ps0, i as int, a));
                    }
                }
            }
            i = i + 1;
        }
        proof {
            if old(self).none_applied() {
                assert forall|a: u64| m0.dom().contains(a) implies mem.mem()[a] == m0[a] by {
                    assert(!restored_covered(ps0, n as int, a));
                }
                assert(mem.mem() =~= m0);
                assert(self.patches@ =~= ps0);
            }
        }
        Ok(())
    }
}

/// Whether `ps` is a well-formed group: every member well formed and every
/// pair of regions disjoint.
pub fn check_group(ps: &Vec<Patch>) -> (r: bool)
    ensures
        r == seq_wf(ps@),
{
    let n = ps.len();
    let mut i: usize = 0;
    while i < n
        invariant
            i <= n,
            n == ps@.len(),
            forall|t: int| 0 <= t < i ==> (#[trigger] ps@[t]).wf(),
            forall|t: int, u: int|
                0 <= t < u < i ==> patches_disjoint(#[trigger] ps@[t], #[trigger] ps@[u]),
        decreases n - i,
    {
        let len_i = ps[i].replacement.len();
        if len_i == 0 {
            assert(!ps@[i as int].wf());
            return false;
        }
        if len_i as u64 - 1 > u64::MAX - ps[i].address {
            assert(!ps@[i as int].wf());
            return false;
        }
        match &ps[i].saved {
            Some(s) => {
                if s.len() != len_i {
                    assert(!ps@[i as int].wf());
                    return false;
                }
            },
            None => {},
        }
        let mut j: usize = 0;
        while j < i
            invariant
                j <= i < n,
                n == ps@.len(),
                len_i == ps@[i as int].replacement@.len(),
                ps@[i as int].wf(),
                forall|t: int| 0 <= t < i ==> (#[trigger] ps@[t]).wf(),
                forall|t: int| 0 <= t < j ==> patches_disjoint(#[trigger] ps@[t], ps@[i as int]),
            decreases i - j,
        {
            proof {
                assert(ps@[j as int].wf());
                assert(ps@[i as int].wf());
            }
            let aj = ps[j].address;
            let lj = ps[j].replacement.len() as u64;
            let ai = ps[i].address;
            let a_end_ok = aj <= ai && lj <= ai - aj;
            let b_end_ok = ai <= aj && len_i as u64 <= aj - ai;
            if !(a_end_ok || b_end_ok) {
                assert(!patches_disjoint(ps@[j as int], ps@[i as int]));
                return false;
            }
            assert(patches_disjoint(ps@[j as int], ps@[i as int]));
            j = j + 1;
        }
        i = i + 1;
    }
    true
}

/// Applying a group of disjoint, unapplied patches and then reverting it
/// restores the original memory byte for byte, and leaves every member
/// unapplied again.
pub proof fn lemma_apply_then_revert_restores(
    ps0: Seq<Patch>,
    ps1: Seq<Patch>,
    ps2: Seq<Patch>,
    m0: Map<u64, u8>,
    m1: Map<u64, u8>,
    m2: Map<u64, u8>,
)
    requires
        seq_wf(ps0),
        seq_in_mem(ps0, m0),
        forall|i: int| 0 <= i < ps0.len() ==> !(#[trigger] ps0[i]).applied(),
        group_applied_to(ps0, ps1, m0, ps0.len() as int),
        mem_applied_to(ps0, m0, m1, ps0.len() as int),
        group_reverted_to(ps1, ps2, ps1.len() as int),
        mem_reverted_to(ps1, m1, m2, ps1.len() as int),
    ensures
        m2 == m0,
        forall|i: int| 0 <= i < ps2.len() ==> !(#[trigger] ps2[i]).applied(),
{
    let n = ps0.len() as int;
    assert forall|a: u64| m2.dom().contains(a) implies m2[a] == m0[a] by {
        assert(m2.dom() == m1.dom() && m1.dom() == m0.dom());
        if restored_covered(ps1, n, a) {
            let i = choose|i: int| 0 <= i < n && (#[trigger] ps1[i]).applied() && ps1[i].covers(a);
            assert(ps1[i].saved matches Some(s) && s@ == read_seq(m0, ps0[i].address, ps0[i].len()));
            assert(m2[a] == ps1[i].saved.unwrap()@[a - ps1[i].address]);
            assert(ps1[i].address == ps0[i].address);
            assert(ps1[i].covers(a) == ps0[i].covers(a));
            assert(m2[a] == read_seq(m0, ps0[i].address, ps0[i].len())[a - ps0[i].address]);
            assert((ps0[i].address + (a - ps0[i].address)) as u64 == a);
        } else {
            assert(m2[a] == m1[a]);
            if newly_covered(ps0, n, a) {
                let i = choose|i: int|
                    0 <= i < n && !(#[trigger] ps0[i]).applied() && ps0[i].covers(a);
                assert(ps1[i].applied());
                assert(ps1[i].covers(a));
                assert(restored_covered(ps1, n, a));
                assert(false);
            }
            assert(m1[a] == m0[a]);
        }
    }
    assert(m2 =~= m0);
}

} // verus!
