use vstd::prelude::*;

use crate::error::RuntimeError;

verus! {

/// Anything that can reserve room for one byte buffer inside guest linear
/// memory, place the buffer there, and hand back its guest-side offset.
///
/// During a real call the guest itself exposes the allocator and the
/// executor drives it, so nothing is promised about which offsets it
/// picks.  What the trait does pin down is the call log: `allocations()`
/// lists every call ever made — the bytes handed over and the offset or
/// error that came back, in call order — and each `allocate` appends
/// exactly its own argument and result.  A caller's contract can therefore
/// state how often, in what order, with what bytes the allocator was
/// driven, and what it answered.  `LinearMemory` below is a verified
/// in-process model.
pub trait Allocator {
    /// The calls made against the allocator so far, in order: the buffer's
    /// bytes and the returned offset or error.  The default leaves the log
    /// unspecified; an implementation proved against `allocate`'s contract
    /// gives it a real body.
    open spec fn allocations(&self) -> Seq<(Seq<u8>, Result<u32, RuntimeError>)> {
        vstd::pervasive::arbitrary()
    }

    fn allocate(&mut self, data: &Vec<u8>) -> (r: Result<u32, RuntimeError>)
        ensures
            final(self).allocations() == old(self).allocations().push((data@, r)),
    ;
}

/// A model of the guest's flat linear memory: a byte array addressed by
/// 32-bit offsets, read and written only through bounds-checked calls, with
/// a bump allocator placing buffers one after the other from the front.
pub struct LinearMemory {
    bytes: Vec<u8>,
    next: u32,
    calls: Ghost<Seq<(Seq<u8>, Result<u32, RuntimeError>)>>,
}

impl LinearMemory {
    /// The memory contents.
    pub closed spec fn mem(&self) -> Seq<u8> {
        self.bytes@
    }

    /// The offset at which the next allocation will be placed.
    pub closed spec fn next_free(&self) -> int {
        self.next as int
    }

    /// The allocation cursor stays inside memory, and every offset fits in
    /// the guest's 32-bit address space.
    pub closed spec fn wf(&self) -> bool {
        self.next as int <= self.bytes@.len() && self.bytes@.len() <= u32::MAX as int
    }

    /// Fresh zeroed memory of `size` bytes.
    pub fn new(size: u32) -> (m: LinearMemory)
        ensures
            m.wf(),
            m.mem().len() == size,
            m.next_free() == 0,
            forall|i: int| 0 <= i < size ==> m.mem()[i] == 0u8,
            m.allocations() == Seq::<(Seq<u8>, Result<u32, RuntimeError>)>::empty(),
    {
        LinearMemory { bytes: vec![0u8; size as usize], next: 0, calls: Ghost(Seq::empty()) }
    }

    /// Bounds-checked read of `len` bytes starting at `offset`: exactly the
    /// reads that stay inside memory succeed, and a successful read returns
    /// exactly the bytes in place there.
    pub fn read(&self, offset: u32, len: u32) -> (r: Result<Vec<u8>, RuntimeError>)
        ensures
            offset as int + len as int <= self.mem().len() ==> r is Ok,
            offset as int + len as int > self.mem().len() ==> r == Result::<Vec<u8>,
                RuntimeError>::Err(RuntimeError::Runtime),
            r is Ok ==> r->Ok_0@ == self.mem().subrange(offset as int, offset as int + len as int),
    {
        if len as usize > self.bytes.len() || offset as usize > self.bytes.len() - len as usize {
            return Result::Err(RuntimeError::Runtime);
        }
        let m = self.bytes.len();
        let mut out: Vec<u8> = Vec::new();
        let mut i: usize = 0;
        while i < len as usize
            invariant
                i <= len as usize,
                m == self.bytes@.len(),
                offset as int + len as int <= self.bytes@.len(),
                out@ == self.bytes@.subrange(offset as int, offset as int + i as int),
            decreases len as usize - i,
        {
            out.push(self.bytes[offset as usize + i]);
            proof {
                assert(out@ =~= self.bytes@.subrange(offset as int, offset as int + i + 1));
            }
            i = i + 1;
        }
        Result::Ok(out)
    }

    /// Bounds-checked write of `data` starting at `offset`: it succeeds
    /// exactly when the written range stays inside memory, replaces that
    /// range with `data`, and leaves every other byte, the allocation
    /// cursor and the allocation log unchanged.  A failed write leaves the
    /// memory untouched.
    pub fn write(&mut self, offset: u32, data: &Vec<u8>) -> (r: Result<(), RuntimeError>)
        ensures
            offset as int + data@.len() <= old(self).mem().len() ==> r is Ok,
            offset as int + data@.len() > old(self).mem().len() ==> r == Result::<(),
                RuntimeError>::Err(RuntimeError::Runtime),
            r is Ok ==> {
                &&& final(self).mem().len() == old(self).mem().len()
                &&& forall|j: int|
                    offset as int <= j < offset as int + data@.len()
                        ==> final(self).mem()[j] == data@[j - offset as int]
                &&& forall|j: int|
                    0 <= j < old(self).mem().len() && !(offset as int <= j < offset as int
                        + data@.len()) ==> final(self).mem()[j] == old(self).mem()[j]
            },
            r is Err ==> *final(self) == *old(self),
            final(self).next_free() == old(self).next_free(),
            final(self).allocations() == old(self).allocations(),
            old(self).wf() ==> final(self).wf(),
    {
        if data.len() > self.bytes.len() || offset as usize > self.bytes.len() - data.len() {
            return Result::Err(RuntimeError::Runtime);
        }
        let m = self.bytes.len();
        let mut i: usize = 0;
        while i < data.len()
            invariant
                i <= data@.len(),
                m == self.bytes@.len(),
                offset as int + data@.len() <= self.bytes@.len(),
                self.bytes@.len() == old(self).mem().len(),
                self.next == old(self).next,
                self.calls == old(self).calls,
                forall|j: int|
                    offset as int <= j < offset as int + i ==> self.bytes@[j] == data@[j
                        - offset as int],
                forall|j: int|
                    0 <= j < self.bytes@.len() && !(offset as int <= j < offset as int + i)
                        ==> self.bytes@[j] == old(self).mem()[j],
            decreases data@.len() - i,
        {
            self.bytes[offset as usize + i] = data[i];
            i = i + 1;
        }
        Result::Ok(())
    }
}

impl Allocator for LinearMemory {
    /// The `allocate` calls made against this memory, in order.
    closed spec fn allocations(&self) -> Seq<(Seq<u8>, Result<u32, RuntimeError>)> {
        self.calls@
    }

    /// Places `data` at the allocation cursor and advances the cursor past
    /// it; on well-formed memory it fails exactly when the remaining space
    /// is too small, and a failure changes nothing but the call log.
    fn allocate(&mut self, data: &Vec<u8>) -> (r: Result<u32, RuntimeError>)
        ensures
            r is Err ==> final(self).mem() == old(self).mem() && final(self).next_free() == old(
                self,
            ).next_free(),
            old(self).wf() ==> {
                &&& (old(self).next_free() + data@.len() <= old(self).mem().len() <==> r is Ok)
                &&& (r is Ok ==> {
                    &&& r->Ok_0 as int == old(self).next_free()
                    &&& final(self).wf()
                    &&& final(self).mem().len() == old(self).mem().len()
                    &&& final(self).next_free() == old(self).next_free() + data@.len()
                    &&& (forall|j: int|
                        old(self).next_free() <= j < old(self).next_free() + data@.len()
                            ==> final(self).mem()[j] == data@[j - old(self).next_free()])
                    &&& (forall|j: int|
                        0 <= j < old(self).mem().len() && !(old(self).next_free() <= j < old(
                            self,
                        ).next_free() + data@.len()) ==> final(self).mem()[j] == old(self).mem()[j])
                })
            },
    {
        let start = self.next as usize;
        if self.bytes.len() > u32::MAX as usize || start > self.bytes.len() || data.len()
            > self.bytes.len() - start {
            self.calls = Ghost(
                self.calls@.push((data@, Result::Err(RuntimeError::Runtime))),
            );
            return Result::Err(RuntimeError::Runtime);
        }
        let m = self.bytes.len();
        let mut i: usize = 0;
        while i < data.len()
            invariant
                i <= data@.len(),
                m == self.bytes@.len(),
                start == old(self).next as int,
                start + data@.len() <= self.bytes@.len(),
                self.next == old(self).next,
                self.calls == old(self).calls,
                forall|j: int|
                    start <= j < start + i ==> self.bytes@[j] == data@[j - start],
                forall|j: int|
                    0 <= j < self.bytes@.len() && !(start <= j < start + i) ==> self.bytes@[j]
                        == old(self).mem()[j],
            decreases data@.len() - i,
        {
            self.bytes[start + i] = data[i];
            i = i + 1;
        }
        self.next = (start + data.len()) as u32;
        let off = start as u32;
        self.calls = Ghost(self.calls@.push((data@, Result::Ok(off))));
        Result::Ok(off)
    }
}

} // verus!
