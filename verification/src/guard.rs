//! Recursion guard: the set of definition slots currently being
//! validated on the active call stack. Re-entering a slot that is
//! already active is the runtime signature of unbounded recursion on
//! a self-referential schema, and is rejected. Entries are released
//! unconditionally on scope exit, success or failure alike, so a
//! failed validation can never leak a stuck entry and poison later
//! sibling validations.

use vstd::prelude::*;

verus! {

/// Active-stack membership per definition slot.
#[derive(Debug)]
pub struct RecursionGuard {
    pub active: Vec<bool>,
}

impl View for RecursionGuard {
    type V = Seq<bool>;

    open spec fn view(&self) -> Seq<bool> {
        self.active@
    }
}

/// How many slots are not on the active stack: the termination measure
/// of a validation call, since each guard entry consumes one free slot.
pub open spec fn free_count(s: Seq<bool>) -> nat
    decreases s,
{
    if s.len() == 0 {
        0
    } else {
        free_count(s.drop_last()) + if s.last() {
            0nat
        } else {
            1nat
        }
    }
}

/// Marking a free slot active strictly decreases the measure.
pub proof fn lemma_free_count_enter(s: Seq<bool>, i: int)
    requires
        0 <= i < s.len(),
        !s[i],
    ensures
        free_count(s.update(i, true)) < free_count(s),
    decreases s,
{
    if s.len() > 0 {
        if i == s.len() - 1 {
            assert(s.update(i, true).drop_last() =~= s.drop_last());
        } else {
            assert(s.update(i, true).drop_last() =~= s.drop_last().update(i, true));
            lemma_free_count_enter(s.drop_last(), i);
        }
    }
}

impl RecursionGuard {
    /// A guard for `n` definition slots, none active.
    #[verifier::loop_isolation(false)]
    pub fn new(n: usize) -> (r: RecursionGuard)
        ensures
            r@.len() == n,
            forall|i: int| 0 <= i < n ==> !r@[i],
    {
        let mut active: Vec<bool> = Vec::new();
        let mut i: usize = 0;
        while i < n
            invariant
                i <= n,
                active@.len() == i,
                forall|j: int| 0 <= j < i ==> !active@[j],
            decreases n - i,
        {
            active.push(false);
            i = i + 1;
        }
        RecursionGuard { active }
    }

    /// Is this slot already being validated on the active stack?
    pub fn in_progress(&self, slot: usize) -> (r: bool)
        requires
            slot < self@.len(),
        ensures
            r == self@[slot as int],
    {
        self.active[slot]
    }

    /// Push a slot onto the active stack.
    pub fn enter(&mut self, slot: usize)
        requires
            slot < old(self)@.len(),
            !old(self)@[slot as int],
        ensures
            final(self)@ == old(self)@.update(slot as int, true),
    {
        self.active.set(slot, true);
    }

    /// Release a slot on scope exit, unconditionally.
    pub fn exit(&mut self, slot: usize)
        requires
            slot < old(self)@.len(),
        ensures
            final(self)@ == old(self)@.update(slot as int, false),
    {
        self.active.set(slot, false);
    }
}

} // verus!
