//! Bump-allocation arithmetic for a memory arena: where the next block of
//! `size` bytes aligned to `align` starts, and where the cursor moves to;
//! and the scope bookkeeping that decides when the arena may be emptied.

use vstd::prelude::*;

verus! {

/// `align` is a power of two.
pub open spec fn pow2_align(align: usize) -> bool {
    align > 0 && align & ((align - 1) as usize) == 0
}

/// Round `cur` up to a multiple of `align` (a power of two), add `size`,
/// and check that the block fits below `end`. `None` when either sum
/// overflows or the block would pass `end`; otherwise the block's start
/// and the new cursor.
pub fn bump_compute(cur: usize, align: usize, size: usize, end: usize) -> (r: Option<(usize, usize)>)
    requires
        align > 0,
    ensures
        cur + (align - 1) > usize::MAX ==> r is None,
        cur + (align - 1) <= usize::MAX ==> ({
            let aligned = ((cur + (align - 1)) as usize) & !((align - 1) as usize);
            r == if aligned + size <= end {
                Some((aligned, (aligned + size) as usize))
            } else {
                None::<(usize, usize)>
            }
        }),
{
    let bumped = match cur.checked_add(align - 1) {
        Some(b) => b,
        None => {
            return None;
        },
    };
    let aligned = bumped & !(align - 1);
    let next = match aligned.checked_add(size) {
        Some(n) => n,
        None => {
            return None;
        },
    };
    if next <= end {
        Some((aligned, next))
    } else {
        None
    }
}

/// Alignment law: with a power-of-two `align`, the block starts at a
/// multiple of `align` (no bits below `align` set), at or after the cursor and less than `align` past
/// it, and ends `size` bytes later.
pub proof fn lemma_bump_aligned(cur: usize, align: usize, size: usize, end: usize, aligned: usize, next: usize)
    requires
        pow2_align(align),
        cur + (align - 1) <= usize::MAX,
        aligned == ((cur + (align - 1)) as usize) & !((align - 1) as usize),
        aligned + size <= end,
        next == aligned + size,
    ensures
        aligned & ((align - 1) as usize) == 0,
        cur <= aligned < cur + align,
        next == aligned + size,
{
    let b = (cur + (align - 1)) as usize;
    let m = (align - 1) as usize;
    assert((b & !m) & m == 0) by (bit_vector);
    assert(align & m == 0 && align > 0 && m == align - 1 && b == cur + m ==> (b & !m) >= cur)
        by (bit_vector);
    assert(align & m == 0 && align > 0 && m == align - 1 && b == cur + m ==> (b & !m) < cur
        + align) by (bit_vector);
}


/// The per-thread state of the scoped arena: how many scopes are open, the
/// bump cursor, and the arena's base address.
pub struct ScopeState {
    pub depth: u32,
    pub cursor: usize,
    pub base: usize,
}

impl ScopeState {
    /// Open a scope.
    pub fn enter(&mut self)
        requires
            old(self).depth < u32::MAX,
        ensures
            final(self).depth == old(self).depth + 1,
            final(self).cursor == old(self).cursor,
            final(self).base == old(self).base,
    {
        self.depth = self.depth + 1;
    }

    /// Leave a scope without resetting; whether it was the outermost one.
    /// Leaving with no scope open keeps the depth at zero.
    pub fn leave_no_reset(&mut self) -> (outermost: bool)
        ensures
            final(self).depth == if old(self).depth > 0 { old(self).depth - 1 } else { 0 },
            outermost == (final(self).depth == 0),
            final(self).cursor == old(self).cursor,
            final(self).base == old(self).base,
    {
        let d = self.depth.saturating_sub(1);
        self.depth = d;
        d == 0
    }

    /// Empty the arena, but only while no scope is open.
    pub fn reset(&mut self)
        ensures
            final(self).cursor == if old(self).depth == 0 { old(self).base } else { old(self).cursor },
            final(self).depth == old(self).depth,
            final(self).base == old(self).base,
    {
        if self.depth == 0 {
            self.cursor = self.base;
        }
    }

    /// Leave a scope, emptying the arena if it was the outermost one (what
    /// dropping a scope guard does).
    pub fn leave(&mut self)
        ensures
            final(self).depth == if old(self).depth > 0 { old(self).depth - 1 } else { 0 },
            final(self).cursor == if final(self).depth == 0 { old(self).base } else { old(self).cursor },
            final(self).base == old(self).base,
    {
        if self.leave_no_reset() {
            self.reset();
        }
    }

    /// Suspend all scopes (allocations go to the system); the saved depth.
    pub fn pause(&mut self) -> (saved: u32)
        ensures
            saved == old(self).depth,
            final(self).depth == 0,
            final(self).cursor == old(self).cursor,
            final(self).base == old(self).base,
    {
        let d = self.depth;
        self.depth = 0;
        d
    }

    /// Restore the depth saved by `pause`.
    pub fn resume(&mut self, saved: u32)
        ensures
            final(self).depth == saved,
            final(self).cursor == old(self).cursor,
            final(self).base == old(self).base,
    {
        self.depth = saved;
    }
}

} // verus!
