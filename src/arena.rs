use vstd::prelude::*;

use crate::align::{calc_byte_skip_for_alignment, lemma_padding_aligns, padding};

verus! {

/// Size and alignment of one block, in bytes.
#[derive(Clone, Copy, Debug, PartialEq, Eq, Structural)]
pub struct BlockLayout {
    pub size: usize,
    pub align: usize,
}

impl BlockLayout {
    /// The alignment is positive (a layout's alignment is a power of two,
    /// and any positive one is served).
    pub open spec fn wf(self) -> bool {
        self.align > 0
    }
}

/// Why an operation of the arena failed.
#[derive(Clone, Copy, Debug, PartialEq, Eq, Structural)]
pub enum ArenaError {
    /// The backing file could not be created or resized.
    Io,
    /// The address reservation could not be established.
    MappingFailed,
    /// The request would carry the high-water mark past the reservation.
    CapacityExceeded,
    /// Growth across two alignments, or a zeroed allocation.
    UnsupportedOperation,
}

/// One request made of the arena. Addresses are absolute, as handed out.
#[derive(Clone, Copy, Debug, PartialEq, Eq)]
pub enum Op {
    /// A fresh block at the high-water mark.
    Allocate { layout: BlockLayout },
    /// A larger block for the block at `addr`.
    Grow { addr: usize, old: BlockLayout, new: BlockLayout },
    /// A smaller block for the block at `addr`.
    Shrink { addr: usize, old: BlockLayout, new: BlockLayout },
    /// The block at `addr` is no longer used.
    Deallocate { addr: usize, layout: BlockLayout },
}

impl Op {
    /// What a caller must guarantee of a request: positive alignments where
    /// a block may be carved, growth that grows and shrinking that shrinks.
    pub open spec fn wf(self) -> bool {
        match self {
            Op::Allocate { layout } => layout.wf(),
            Op::Grow { addr, old, new } => old.wf() && new.wf() && old.size <= new.size,
            Op::Shrink { addr, old, new } => new.size <= old.size,
            Op::Deallocate { addr, layout } => true,
        }
    }
}

/// The outcome of planning a request: the length the backing file must take,
/// whether that differs from its present length, and the block handed back.
#[derive(Clone, Copy, Debug, PartialEq, Eq)]
pub struct Plan {
    /// The high-water mark once the request is done.
    pub new_size: usize,
    /// The backing file must be resized to `new_size` first.
    pub resize: bool,
    /// Offset from the base of a freshly carved block; `None` where the
    /// caller's block stays where it was.
    pub start: Option<usize>,
    /// Length of the block handed back.
    pub len: usize,
}

/// The arena as a mathematical value: base address, reservation cap and
/// high-water mark.
pub struct ArenaView {
    pub base: nat,
    pub cap: nat,
    pub size: nat,
}

impl ArenaView {
    pub open spec fn wf(self) -> bool {
        self.size <= self.cap && self.base + self.cap <= usize::MAX
    }

    /// The block `[addr, addr + len)` ends at the high-water mark.
    pub open spec fn is_tail(self, addr: int, len: int) -> bool {
        self.base <= addr && addr + len == self.base + self.size
    }

    /// The block an allocation would carve: padding up to the alignment,
    /// then the requested bytes.
    pub open spec fn alloc_start(self, layout: BlockLayout) -> int {
        self.size + padding(self.size as int, layout.align as int)
    }

    pub open spec fn plan_allocate(self, layout: BlockLayout) -> Result<Plan, ArenaError> {
        let start = self.alloc_start(layout);
        let end = start + layout.size;
        if end > self.cap {
            Err(ArenaError::CapacityExceeded)
        } else {
            Ok(Plan { new_size: end as usize, resize: end != self.size, start: Some(start as usize), len: layout.size })
        }
    }

    /// A plan that leaves the caller's block in place with the high-water
    /// mark at `end`.
    pub open spec fn in_place(self, end: int, len: usize) -> Plan {
        Plan { new_size: end as usize, resize: end != self.size, start: None, len }
    }

    pub open spec fn plan_grow(self, addr: usize, old: BlockLayout, new: BlockLayout) -> Result<Plan, ArenaError> {
        if old.align != new.align {
            Err(ArenaError::UnsupportedOperation)
        } else if self.is_tail(addr as int, old.size as int) {
            let end = self.size + (new.size - old.size);
            if end > self.cap {
                Err(ArenaError::CapacityExceeded)
            } else {
                Ok(self.in_place(end, new.size))
            }
        } else {
            self.plan_allocate(new)
        }
    }

    pub open spec fn plan_shrink(self, addr: usize, old: BlockLayout, new: BlockLayout) -> Plan {
        if self.is_tail(addr as int, old.size as int) {
            self.in_place(self.size - (old.size - new.size), new.size)
        } else {
            self.in_place(self.size as int, new.size)
        }
    }

    pub open spec fn plan_deallocate(self, addr: usize, layout: BlockLayout) -> Plan {
        if self.is_tail(addr as int, layout.size as int) {
            self.in_place(self.size - layout.size, 0)
        } else {
            self.in_place(self.size as int, 0)
        }
    }

    /// What a request asks of the backing file and hands back.
    pub open spec fn plan(self, op: Op) -> Result<Plan, ArenaError> {
        match op {
            Op::Allocate { layout } => self.plan_allocate(layout),
            Op::Grow { addr, old, new } => self.plan_grow(addr, old, new),
            Op::Shrink { addr, old, new } => Ok(self.plan_shrink(addr, old, new)),
            Op::Deallocate { addr, layout } => Ok(self.plan_deallocate(addr, layout)),
        }
    }

    /// The arena after a request whose resize of the backing file succeeded
    /// (`resized`) or failed: the high-water mark moves only where the file
    /// holds the new length.
    pub open spec fn after(self, op: Op, resized: bool) -> ArenaView {
        match self.plan(op) {
            Ok(p) => if p.resize && !resized {
                self
            } else {
                ArenaView { size: p.new_size as nat, ..self }
            },
            Err(_) => self,
        }
    }

    /// What a request returns once the backing file was or was not resized.
    pub open spec fn outcome(self, op: Op, resized: bool) -> Result<Plan, ArenaError> {
        match self.plan(op) {
            Ok(p) => if p.resize && !resized {
                Err(ArenaError::Io)
            } else {
                Ok(p)
            },
            Err(e) => Err(e),
        }
    }
}

/// A bump allocator's bookkeeping over a reservation of `cap` bytes at
/// `base`; `size` bytes from the base are allocated.
pub struct BumpArena {
    base: usize,
    cap: usize,
    size: usize,
}

impl BumpArena {
    pub closed spec fn view(&self) -> ArenaView {
        ArenaView { base: self.base as nat, cap: self.cap as nat, size: self.size as nat }
    }

    /// An empty arena over the reservation `[base, base + cap)`.
    pub fn new(base: usize, cap: usize) -> (r: BumpArena)
        requires
            base + cap <= usize::MAX,
        ensures
            r@ == (ArenaView { base: base as nat, cap: cap as nat, size: 0 }),
            r@.wf(),
    {
        BumpArena { base, cap, size: 0 }
    }

    /// The high-water mark.
    pub fn size(&self) -> (r: usize)
        ensures
            r == self@.size,
    {
        self.size
    }

    /// The base address of the reservation.
    pub fn base(&self) -> (r: usize)
        ensures
            r == self@.base,
    {
        self.base
    }

    /// The reservation cap.
    pub fn cap(&self) -> (r: usize)
        ensures
            r == self@.cap,
    {
        self.cap
    }

    fn is_tail(&self, addr: usize, len: usize) -> (r: bool)
        requires
            self@.wf(),
        ensures
            r == self@.is_tail(addr as int, len as int),
    {
        addr >= self.base && addr - self.base <= self.size && self.size - (addr - self.base) == len
    }

    /// Plans an allocation at the high-water mark.
    pub fn plan_allocate(&self, layout: BlockLayout) -> (r: Result<Plan, ArenaError>)
        requires
            self@.wf(),
            layout.wf(),
        ensures
            r == self@.plan_allocate(layout),
    {
        let ghost v = self@;
        proof {
            lemma_padding_aligns(v.size as int, layout.align as int);
        }
        let skip = calc_byte_skip_for_alignment(self.size, layout.align);
        if skip > self.cap - self.size {
            return Err(ArenaError::CapacityExceeded);
        }
        let start = self.size + skip;
        if layout.size > self.cap - start {
            return Err(ArenaError::CapacityExceeded);
        }
        let end = start + layout.size;
        Ok(Plan { new_size: end, resize: end != self.size, start: Some(start), len: layout.size })
    }

    /// Plans growth of a block: in place at the tail, elsewhere by a fresh
    /// block that the caller copies into.
    pub fn plan_grow(&self, addr: usize, old: BlockLayout, new: BlockLayout) -> (r: Result<Plan, ArenaError>)
        requires
            self@.wf(),
            old.wf(),
            new.wf(),
            old.size <= new.size,
        ensures
            r == self@.plan_grow(addr, old, new),
    {
        if old.align != new.align {
            return Err(ArenaError::UnsupportedOperation);
        }
        if !self.is_tail(addr, old.size) {
            return self.plan_allocate(new);
        }
        let growth = new.size - old.size;
        if growth > self.cap - self.size {
            return Err(ArenaError::CapacityExceeded);
        }
        let end = self.size + growth;
        Ok(Plan { new_size: end, resize: end != self.size, start: None, len: new.size })
    }

    /// Plans shrinking a block in place; only the tail gives bytes back.
    pub fn plan_shrink(&self, addr: usize, old: BlockLayout, new: BlockLayout) -> (r: Plan)
        requires
            self@.wf(),
            new.size <= old.size,
        ensures
            r == self@.plan_shrink(addr, old, new),
    {
        let end = if self.is_tail(addr, old.size) {
            self.size - (old.size - new.size)
        } else {
            self.size
        };
        Plan { new_size: end, resize: end != self.size, start: None, len: new.size }
    }

    /// Plans freeing a block; only the tail gives bytes back, any other
    /// block stays allocated until the arena goes.
    pub fn plan_deallocate(&self, addr: usize, layout: BlockLayout) -> (r: Plan)
        requires
            self@.wf(),
        ensures
            r == self@.plan_deallocate(addr, layout),
    {
        let end = if self.is_tail(addr, layout.size) {
            self.size - layout.size
        } else {
            self.size
        };
        Plan { new_size: end, resize: end != self.size, start: None, len: 0 }
    }

    /// Plans any request.
    pub fn plan(&self, op: Op) -> (r: Result<Plan, ArenaError>)
        requires
            self@.wf(),
            op.wf(),
        ensures
            r == self@.plan(op),
    {
        match op {
            Op::Allocate { layout } => self.plan_allocate(layout),
            Op::Grow { addr, old, new } => self.plan_grow(addr, old, new),
            Op::Shrink { addr, old, new } => Ok(self.plan_shrink(addr, old, new)),
            Op::Deallocate { addr, layout } => Ok(self.plan_deallocate(addr, layout)),
        }
    }

    /// Completes a request once the caller has tried to resize the backing
    /// file to the planned length (`resized` tells whether that succeeded;
    /// it is not looked at where no resize was planned). The high-water mark
    /// is committed only after the storage is there.
    pub fn apply(&mut self, op: Op, resized: bool) -> (r: Result<Plan, ArenaError>)
        requires
            old(self)@.wf(),
            op.wf(),
        ensures
            final(self)@ == old(self)@.after(op, resized),
            r == old(self)@.outcome(op, resized),
            final(self)@.wf(),
    {
        match self.plan(op) {
            Err(e) => Err(e),
            Ok(p) => {
                if p.resize && !resized {
                    Err(ArenaError::Io)
                } else {
                    self.size = p.new_size;
                    Ok(p)
                }
            },
        }
    }
}

} // verus!
