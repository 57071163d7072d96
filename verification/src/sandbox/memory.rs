//! Guest linear memory: bounds-checked reads and writes, and the bump
//! allocator of the region that the host writes into.

use vstd::prelude::*;
use vstd::bytes::{spec_u32_from_le_bytes, spec_u32_to_le_bytes};
use vstd::slice::{slice_subrange, slice_to_vec};
use crate::hostapi::error::HostError;
use crate::primitives::error::ErrorCode;
use crate::primitives::types::u32_to_le_bytes;

verus! {

/// Pages reserved for host allocations when an instance starts.
pub const HOST_ALLOC_PAGES: u64 = 4;

/// The range `[ptr, ptr + len)` lies within a memory of `mem_size` bytes:
/// neither number is negative and the end is within the memory.
pub open spec fn range_valid(mem_size: nat, ptr: i32, len: i32) -> bool {
    ptr >= 0 && len >= 0 && ptr + len <= mem_size
}

/// Memory after `data` has been written at `ptr`.
pub open spec fn write_at(mem: Seq<u8>, ptr: int, data: Seq<u8>) -> Seq<u8> {
    Seq::new(
        mem.len(),
        |i: int|
            if ptr <= i < ptr + data.len() {
                data[i - ptr]
            } else {
                mem[i]
            },
    )
}

/// Copies `len` bytes out of guest memory at `ptr`. Fails with bad-pointer
/// exactly when the range is not within the memory.
pub fn read_bytes(mem: &[u8], ptr: i32, len: i32) -> (r: Result<Vec<u8>, HostError>)
    ensures
        r is Ok <==> range_valid(mem@.len(), ptr, len),
        r matches Ok(v) ==> v@ == mem@.subrange(ptr as int, ptr + len),
        r matches Err(e) ==> e == HostError::Code(ErrorCode::BadPointer),
{
    if ptr < 0 || len < 0 {
        return Err(HostError::bad_pointer());
    }
    let start = ptr as usize;
    let end = match start.checked_add(len as usize) {
        Some(v) => v,
        None => {
            return Err(HostError::bad_pointer());
        },
    };
    if end > mem.len() {
        return Err(HostError::bad_pointer());
    }
    Ok(slice_to_vec(slice_subrange(mem, start, end)))
}

/// Copies `data` into guest memory at `ptr`. Fails with bad-pointer, and
/// writes nothing, exactly when the range is not within the memory.
pub fn write_bytes(mem: &mut [u8], ptr: i32, data: &[u8]) -> (r: Result<(), HostError>)
    ensures
        r is Ok <==> ptr >= 0 && ptr + data@.len() <= old(mem)@.len(),
        r is Ok ==> final(mem)@ == write_at(old(mem)@, ptr as int, data@),
        r is Err ==> final(mem)@ == old(mem)@,
        r matches Err(e) ==> e == HostError::Code(ErrorCode::BadPointer),
{
    let size = mem.len();
    if ptr < 0 {
        return Err(HostError::bad_pointer());
    }
    let start = ptr as usize;
    let end = match start.checked_add(data.len()) {
        Some(v) => v,
        None => {
            return Err(HostError::bad_pointer());
        },
    };
    if end > size {
        return Err(HostError::bad_pointer());
    }
    copy_into(mem, start, data);
    Ok(())
}

/// Copies `data` into `mem` at `start`; the range is within the memory.
pub fn copy_into(mem: &mut [u8], start: usize, data: &[u8])
    requires
        start + data@.len() <= old(mem)@.len(),
    ensures
        final(mem)@ == write_at(old(mem)@, start as int, data@),
{
    let n = data.len();
    let size = mem.len();
    let mut i: usize = 0;
    while i < n
        invariant
            i <= n,
            n == data@.len(),
            mem@.len() == old(mem)@.len(),
            size == mem@.len(),
            start + n <= size,
            forall|j: int|
                0 <= j < mem@.len() ==> mem@[j] == if start <= j < start + i {
                    data@[j - start]
                } else {
                    old(mem)@[j]
                },
        decreases n - i,
    {
        mem[start + i] = data[i];
        i += 1;
    }
}

/// Reads a little-endian `i32` at `ptr`.
pub fn read_i32(mem: &[u8], ptr: i32) -> (r: Result<i32, HostError>)
    ensures
        r is Ok <==> range_valid(mem@.len(), ptr, 4),
        r matches Ok(v) ==> v == spec_u32_from_le_bytes(mem@.subrange(ptr as int, ptr + 4)) as i32,
        r matches Err(e) ==> e == HostError::Code(ErrorCode::BadPointer),
{
    match read_bytes(mem, ptr, 4) {
        Ok(bytes) => Ok(vstd::bytes::u32_from_le_bytes(bytes.as_slice()) as i32),
        Err(e) => Err(e),
    }
}

/// Writes a little-endian `i32` at `ptr`.
pub fn write_i32(mem: &mut [u8], ptr: i32, value: i32) -> (r: Result<(), HostError>)
    ensures
        r is Ok <==> ptr >= 0 && ptr + 4 <= old(mem)@.len(),
        r is Ok ==> final(mem)@ == write_at(
            old(mem)@,
            ptr as int,
            spec_u32_to_le_bytes(value as u32),
        ),
        r is Err ==> final(mem)@ == old(mem)@,
        r matches Err(e) ==> e == HostError::Code(ErrorCode::BadPointer),
{
    let bytes = u32_to_le_bytes(value as u32);
    proof {
        vstd::bytes::lemma_auto_spec_u32_to_from_le_bytes();
    }
    write_bytes(mem, ptr, bytes.as_slice())
}

/// Checks that `[ptr, ptr + len)` lies within a memory of `mem_size`
/// bytes; the error is the bad-pointer code, 1.
pub fn validate_range(mem_size: usize, ptr: i32, len: i32) -> (r: Result<(), i32>)
    ensures
        r is Ok <==> range_valid(mem_size as nat, ptr, len),
        r matches Err(code) ==> code == 1,
{
    if ptr < 0 || len < 0 {
        return Err(ErrorCode::BadPointer.as_i32());
    }
    let end = match (ptr as usize).checked_add(len as usize) {
        Some(v) => v,
        None => {
            return Err(ErrorCode::BadPointer.as_i32());
        },
    };
    if end > mem_size {
        return Err(ErrorCode::BadPointer.as_i32());
    }
    Ok(())
}

/// `size` rounded up to a multiple of 8.
pub open spec fn spec_align8(size: nat) -> nat {
    ((size + 7) / 8 * 8) as nat
}

/// Rounds `size` up to a multiple of 8.
pub fn align8(size: usize) -> (r: usize)
    requires
        size + 7 <= usize::MAX,
    ensures
        r == spec_align8(size as nat),
        r % 8 == 0,
        size <= r < size + 8,
{
    (size + 7) / 8 * 8
}

/// The bump allocator of the host's region in guest memory. Nothing is
/// ever freed: the instance lives for one block.
#[derive(Debug, Clone, Copy, PartialEq, Eq, Structural)]
pub struct HostAllocator {
    /// Address of the region in guest memory.
    pub base: usize,
    /// Bytes handed out so far.
    pub bump: usize,
    /// Bytes of the region.
    pub capacity: usize,
}

/// An allocation worked out but not yet made: where the bytes go, the
/// allocator's next state, and the pages by which guest memory must grow
/// first.
pub struct AllocPlan {
    pub ptr: nat,
    pub new_bump: nat,
    pub new_capacity: nat,
    pub grow_pages: nat,
}

impl HostAllocator {
    /// The plan for `size` bytes: at least one byte is taken, rounded up
    /// to a multiple of 8, at the bump pointer. When the region is too
    /// small it grows by whole pages of 64 KiB, just enough to hold the
    /// allocation.
    pub open spec fn plan(self, size: nat) -> AllocPlan {
        let aligned = spec_align8(if size < 1 { 1 } else { size });
        if self.bump + aligned <= self.capacity {
            AllocPlan {
                ptr: (self.base + self.bump) as nat,
                new_bump: (self.bump + aligned) as nat,
                new_capacity: self.capacity as nat,
                grow_pages: 0,
            }
        } else {
            let deficit = self.bump + aligned - self.capacity;
            let extra_pages = (deficit + 65_535) / 65_536;
            AllocPlan {
                ptr: (self.base + self.bump) as nat,
                new_bump: (self.bump + aligned) as nat,
                new_capacity: (self.capacity + extra_pages * 65_536) as nat,
                grow_pages: extra_pages as nat,
            }
        }
    }

    /// The numbers of the plan fit the machine's integers.
    pub open spec fn can_plan(self, size: nat) -> bool {
        self.base + self.bump + size + 65_544 <= usize::MAX
    }

    /// An allocator for the region of `capacity` bytes at `base`.
    pub fn new(base: usize, capacity: usize) -> (a: HostAllocator)
        ensures
            a == (HostAllocator { base, bump: 0, capacity }),
    {
        HostAllocator { base, bump: 0, capacity }
    }

    /// Works out an allocation of `size` bytes: the pointer, the next bump
    /// offset, the next capacity, and the pages to grow by before writing.
    pub fn compute_alloc(&self, size: usize) -> (r: (usize, usize, usize, u64))
        requires
            self.can_plan(size as nat),
        ensures
            r.0 == self.plan(size as nat).ptr,
            r.1 == self.plan(size as nat).new_bump,
            r.2 == self.plan(size as nat).new_capacity,
            r.3 == self.plan(size as nat).grow_pages,
    {
        let aligned = align8(if size < 1 { 1 } else { size });
        if self.bump + aligned <= self.capacity {
            let ptr = self.base + self.bump;
            (ptr, self.bump + aligned, self.capacity, 0)
        } else {
            let deficit = self.bump + aligned - self.capacity;
            let extra_pages = (deficit + 65_535) / 65_536;
            assert(extra_pages * 65_536 <= deficit + 65_535) by (nonlinear_arith)
                requires
                    extra_pages == (deficit + 65_535) / 65_536,
            ;
            let new_capacity = self.capacity + extra_pages * 65_536;
            let ptr = self.base + self.bump;
            (ptr, self.bump + aligned, new_capacity, extra_pages as u64)
        }
    }

    /// Works out an allocation of `size` bytes, or `None` when its numbers
    /// would not fit the machine's integers.
    pub fn try_compute_alloc(&self, size: usize) -> (r: Option<(usize, usize, usize, u64)>)
        ensures
            r is Some <==> self.can_plan(size as nat),
            r matches Some(p) ==> p.0 == self.plan(size as nat).ptr && p.1 == self.plan(
                size as nat,
            ).new_bump && p.2 == self.plan(size as nat).new_capacity && p.3 == self.plan(
                size as nat,
            ).grow_pages,
    {
        let a = match self.base.checked_add(self.bump) {
            Some(v) => v,
            None => {
                return None;
            },
        };
        let b = match a.checked_add(size) {
            Some(v) => v,
            None => {
                return None;
            },
        };
        match b.checked_add(65_544) {
            Some(_) => Some(self.compute_alloc(size)),
            None => None,
        }
    }

    /// Takes over the state of an allocation that was made.
    pub fn commit(&mut self, new_bump: usize, new_capacity: usize)
        ensures
            *final(self) == (HostAllocator {
                base: old(self).base,
                bump: new_bump,
                capacity: new_capacity,
            }),
    {
        self.bump = new_bump;
        self.capacity = new_capacity;
    }
}

/// A planned allocation stays within the region after the planned growth,
/// leaves room for the bytes asked for, and keeps the bump offset a
/// multiple of 8.
pub proof fn lemma_plan_fits(a: HostAllocator, size: nat)
    requires
        a.bump <= a.capacity,
    ensures
        a.plan(size).new_bump <= a.plan(size).new_capacity,
        a.plan(size).ptr + size <= a.base + a.plan(size).new_bump,
        a.plan(size).new_bump >= a.bump + size,
        a.plan(size).new_capacity == a.capacity + a.plan(size).grow_pages * 65_536,
        a.bump % 8 == 0 ==> a.plan(size).new_bump % 8 == 0,
        a.base % 8 == 0 && a.bump % 8 == 0 ==> a.plan(size).ptr % 8 == 0,
        a.plan(size).grow_pages == 0 <==> a.bump + spec_align8(if size < 1 { 1 } else { size })
            <= a.capacity,
{
    let aligned = spec_align8(if size < 1 { 1 } else { size });
    if a.bump + aligned > a.capacity {
        let deficit = a.bump + aligned - a.capacity;
        let extra_pages = (deficit + 65_535) / 65_536;
        assert(extra_pages * 65_536 >= deficit && extra_pages >= 1) by (nonlinear_arith)
            requires
                extra_pages == (deficit + 65_535) / 65_536,
                deficit > 0,
        ;
    }
}

} // verus!
