//! The foreign-memory capability: byte-level read/write at absolute addresses
//! in another address space, modelled as a map from 64-bit addresses to bytes.
//!
//! Every higher-level component (patch engine, resolver, control loop) depends
//! only on the [`ForeignMemory`] trait, never on raw pointers. [`BufferMemory`]
//! is the in-process implementation over an ordinary owned buffer; a platform
//! backend for a live target implements the same trait outside this library.

use vstd::pervasive::VecAdditionalExecFns;
use vstd::prelude::*;

verus! {

/// Error returned when a write to foreign memory is refused (for example a
/// protected page).
#[derive(Clone, Copy, Debug, PartialEq, Eq, Structural)]
pub enum MemoryError {
    WriteFailed,
}

/// The whole range `[addr, addr + len)` lies inside the memory `m`.
pub open spec fn mem_has_range(m: Map<u64, u8>, addr: u64, len: nat) -> bool {
    &&& addr + len <= u64::MAX + 1
    &&& forall|a: u64| addr <= a < addr + len ==> m.dom().contains(a)
}

/// The bytes of `m` at `[addr, addr + len)`, in address order.
pub open spec fn read_seq(m: Map<u64, u8>, addr: u64, len: nat) -> Seq<u8> {
    Seq::new(len, |i: int| m[(addr + i) as u64])
}

/// `m` with the bytes at `[addr, addr + data.len())` replaced by `data`;
/// the domain is unchanged.
pub open spec fn write_seq(m: Map<u64, u8>, addr: u64, data: Seq<u8>) -> Map<u64, u8> {
    Map::new(
        |a: u64| m.dom().contains(a),
        |a: u64|
            if addr <= a < addr + data.len() {
                data[a - addr]
            } else {
                m[a]
            },
    )
}

pub proof fn lemma_write_seq_dom(m: Map<u64, u8>, addr: u64, data: Seq<u8>)
    ensures
        write_seq(m, addr, data).dom() == m.dom(),
{
    assert(write_seq(m, addr, data).dom() =~= m.dom());
}

/// Byte-level access to a foreign address space.
///
/// `mem()` is the current contents; `write_ok(addr, len)` says whether a
/// write to that range is accepted by this backend (it may not be, for
/// example on a protected page), and is not changed by writes.
pub trait ForeignMemory: Sized {
    spec fn mem(&self) -> Map<u64, u8>;

    spec fn write_ok(&self, addr: u64, len: nat) -> bool;

    /// Whether the whole range `[addr, addr + len)` is mapped.
    fn contains_range(&self, addr: u64, len: usize) -> (r: bool)
        ensures
            r == mem_has_range(self.mem(), addr, len as nat),
    ;

    /// Read `len` bytes starting at `addr`.
    fn read_bytes(&self, addr: u64, len: usize) -> (r: Vec<u8>)
        requires
            mem_has_range(self.mem(), addr, len as nat),
        ensures
            r@ == read_seq(self.mem(), addr, len as nat),
    ;

    /// Write `data` starting at `addr`. On refusal the memory is unchanged.
    fn write_bytes(&mut self, addr: u64, data: &Vec<u8>) -> (r: Result<(), MemoryError>)
        requires
            mem_has_range(old(self).mem(), addr, data@.len()),
        ensures
            r is Ok <==> old(self).write_ok(addr, data@.len()),
            r is Ok ==> final(self).mem() == write_seq(old(self).mem(), addr, data@),
            r is Err ==> final(self).mem() == old(self).mem(),
            forall|a: u64, l: nat| final(self).write_ok(a, l) == old(self).write_ok(a, l),
    ;
}

/// The memory map of an owned buffer `data` mapped at address `base`.
pub open spec fn buffer_map(base: u64, data: Seq<u8>) -> Map<u64, u8> {
    Map::new(|a: u64| base <= a < base + data.len(), |a: u64| data[a - base])
}

/// Whether a write to `[addr, addr + len)` avoids the poisoned address.
pub open spec fn poison_ok(poison: Option<u64>, addr: u64, len: nat) -> bool {
    match poison {
        Some(p) => !(addr <= p < addr + len),
        None => true,
    }
}

/// An in-process foreign-memory double over an owned buffer mapped at `base`.
///
/// `poison` injects a write failure: any write whose range contains the
/// poisoned address is refused, which lets callers exercise the partial
/// failure behaviour of the patch engine.
pub struct BufferMemory {
    pub base: u64,
    pub data: Vec<u8>,
    pub poison: Option<u64>,
}

impl BufferMemory {
    pub fn new(base: u64, data: Vec<u8>, poison: Option<u64>) -> (r: BufferMemory)
        ensures
            r.mem() == buffer_map(base, data@),
            forall|a: u64, l: nat| r.write_ok(a, l) == poison_ok(poison, a, l),
            r.base == base,
            r.data == data,
            r.poison == poison,
    {
        BufferMemory { base, data, poison }
    }
}

impl ForeignMemory for BufferMemory {
    open spec fn mem(&self) -> Map<u64, u8> {
        buffer_map(self.base, self.data@)
    }

    open spec fn write_ok(&self, addr: u64, len: nat) -> bool {
        poison_ok(self.poison, addr, len)
    }

    fn contains_range(&self, addr: u64, len: usize) -> (r: bool) {
        if len == 0 {
            return true;
        }
        if addr < self.base {
            assert(!self.mem().dom().contains(addr));
            return false;
        }
        if len as u64 - 1 > u64::MAX - addr {
            return false;
        }
        let off = addr - self.base;
        if off >= self.data.len() as u64 {
            assert(!self.mem().dom().contains(addr));
            return false;
        }
        let room = self.data.len() as u64 - off;
        let r = len as u64 <= room;
        proof {
            if r {
                assert forall|a: u64| addr <= a < addr + len implies self.mem().dom().contains(
                    a,
                ) by {
                    assert(self.base <= a < self.base + self.data@.len());
                }
            } else {
                if addr + len <= u64::MAX + 1 {
                    let last = (addr + len - 1) as u64;
                    assert(!(self.base <= last < self.base + self.data@.len()));
                    assert(!self.mem().dom().contains(last));
                }
            }
        }
        r
    }

    fn read_bytes(&self, addr: u64, len: usize) -> (r: Vec<u8>) {
        let n = self.data.len();
        let mut r: Vec<u8> = Vec::new();
        let mut i: usize = 0;
        while i < len
            invariant
                i <= len,
                mem_has_range(self.mem(), addr, len as nat),
                self.data@.len() == n as int,
                r@.len() == i as nat,
                forall|j: int| 0 <= j < i ==> r@[j] == self.mem()[(addr + j) as u64],
            decreases len - i,
        {
            proof {
                assert(self.mem().dom().contains(addr));
                assert(self.mem().dom().contains((addr + i) as u64));
                assert(addr - self.base + i < n as int);
            }
            let idx = (addr - self.base) as usize + i;
            proof {
                assert(((addr + i) as u64) - self.base == idx as int);
                assert(self.mem()[(addr + i) as u64] == self.data@[idx as int]);
            }
            r.push(self.data[idx]);
            i = i + 1;
        }
        assert(r@ =~= read_seq(self.mem(), addr, len as nat));
        r
    }

    fn write_bytes(&mut self, addr: u64, data: &Vec<u8>) -> (r: Result<(), MemoryError>) {
        match self.poison {
            Some(p) => {
                if addr <= p && p - addr < data.len() as u64 {
                    return Err(MemoryError::WriteFailed);
                }
            },
            None => {},
        }
        let n = self.data.len();
        let mut i: usize = 0;
        while i < data.len()
            invariant
                i <= data@.len(),
                mem_has_range(old(self).mem(), addr, data@.len()),
                self.base == old(self).base,
                self.poison == old(self).poison,
                self.data@.len() == n as int,
                self.data@.len() == old(self).data@.len(),
                forall|j: int|
                    0 <= j < self.data@.len() ==> self.data@[j] == (if addr - self.base <= j
                        < addr - self.base + i {
                        data@[j - (addr - self.base)]
                    } else {
                        old(self).data@[j]
                    }),
            decreases data@.len() - i,
        {
            proof {
                assert(old(self).mem().dom().contains(addr));
                assert(old(self).mem().dom().contains((addr + i) as u64));
                assert(self.base == old(self).base);
                assert(addr - self.base + i < n as int);
            }
            let idx = (addr - self.base) as usize + i;
            self.data.set(idx, data[i]);
            proof {
                assert(self.data@[idx as int] == data@[i as int]);
                assert(idx as int - (addr - self.base) == i as int);
            }
            i = i + 1;
        }
        proof {
            assert forall|a: u64| self.mem().dom().contains(a) implies self.mem()[a] == write_seq(
                old(self).mem(),
                addr,
                data@,
            )[a] by {
                let j = a - self.base;
                if addr <= a < addr + data@.len() {
                    assert(self.data@[j] == data@[j - (addr - self.base)]);
                    assert(j - (addr - self.base) == a - addr);
                } else {
                    assert(self.data@[j] == old(self).data@[j]);
                }
            }
            lemma_write_seq_dom(old(self).mem(), addr, data@);
            assert(self.mem() =~= write_seq(old(self).mem(), addr, data@));
        }
        Ok(())
    }
}

} // verus!
