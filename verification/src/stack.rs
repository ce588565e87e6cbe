//! The bounded call stack: a fixed-capacity store of 16-bit return
//! addresses, mutated only by pushing and popping.

use vstd::prelude::*;

verus! {

pub const STACK_SIZE: usize = 16;

/// A bounded stack of 16-bit return addresses. Its view is the sequence
/// of live entries, oldest first; pushing a full stack and popping an
/// empty one both fail without touching the contents.
pub struct Stack {
    mem: Vec<u16>,
    len: usize,
}

impl View for Stack {
    type V = Seq<u16>;

    closed spec fn view(&self) -> Seq<u16> {
        self.mem@.take(self.len as int)
    }
}

impl Stack {
    /// Storage really holds `STACK_SIZE` slots and the live prefix fits.
    pub closed spec fn wf(&self) -> bool {
        self.mem@.len() == STACK_SIZE && self.len <= STACK_SIZE
    }

    /// What well-formedness guarantees about the view: the live
    /// entries never exceed the capacity.
    pub proof fn lemma_wf(&self)
        requires
            self.wf(),
        ensures
            self@.len() <= STACK_SIZE,
    {
    }

    pub fn new() -> (r: Self)
        ensures
            r.wf(),
            r@ == Seq::<u16>::empty(),
    {
        let mut mem: Vec<u16> = Vec::new();
        let mut i: usize = 0;
        while i < STACK_SIZE
            invariant
                i <= STACK_SIZE,
                mem@.len() == i,
            decreases STACK_SIZE - i,
        {
            mem.push(0);
            i += 1;
        }
        let r = Stack { mem, len: 0 };
        proof {
            assert(r@ =~= Seq::<u16>::empty());
        }
        r
    }

    /// Appends `val` on top; fails if and only if the stack is full.
    pub fn push(&mut self, val: u16) -> (r: Option<()>)
        requires
            old(self).wf(),
        ensures
            final(self).wf(),
            old(self)@.len() < STACK_SIZE ==> r == Some(()) && final(self)@ == old(self)@.push(val),
            old(self)@.len() == STACK_SIZE ==> r == None::<()> && final(self)@ == old(self)@,
    {
        if self.len == STACK_SIZE {
            return None;
        }

        self.mem.set(self.len, val);
        self.len += 1;
        proof {
            assert(self@ =~= old(self)@.push(val));
        }
        Some(())
    }

    /// Removes and returns the top entry; fails if and only if the stack
    /// is empty.
    pub fn pop(&mut self) -> (r: Option<u16>)
        requires
            old(self).wf(),
        ensures
            final(self).wf(),
            old(self)@.len() > 0 ==> r == Some(old(self)@.last())
                && final(self)@ == old(self)@.drop_last(),
            old(self)@.len() == 0 ==> r == None::<u16> && final(self)@ == old(self)@,
    {
        if self.len == 0 {
            return None;
        }

        let val = self.mem[self.len - 1];
        self.len -= 1;
        proof {
            assert(self@ =~= old(self)@.drop_last());
        }
        Some(val)
    }

    /// Hands out an independent copy with the same entries.
    pub fn duplicate(&self) -> (r: Self)
        requires
            self.wf(),
        ensures
            r.wf(),
            r@ == self@,
    {
        let mut mem: Vec<u16> = Vec::new();
        let n = self.mem.len();
        let mut i: usize = 0;
        while i < n
            invariant
                i <= n,
                n == self.mem@.len(),
                mem@.len() == i,
                forall|j: int| 0 <= j < i ==> mem@[j] == self.mem@[j],
            decreases n - i,
        {
            mem.push(self.mem[i]);
            i += 1;
        }
        let r = Stack { mem, len: self.len };
        proof {
            assert(r@ =~= self@);
        }
        r
    }

}

} // verus!
