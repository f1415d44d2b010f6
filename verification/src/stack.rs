//! The 16-slot LIFO stack of return addresses.

use vstd::prelude::*;

verus! {

/// The number of return addresses the stack can hold.
pub const STACK_CAPACITY: usize = 16;

/// An error from a stack operation.  Both overflow and underflow are fatal
/// to the interpreter.
#[derive(Clone, Copy, PartialEq, Eq, Structural, Debug)]
pub enum StackError {
    /// A pop was attempted on an empty stack.
    Empty,
    /// A push was attempted on a stack that already holds 16 addresses.
    Full,
}

/// A LIFO stack of up to 16 return addresses.  The stack pointer is the
/// number of live slots; push stores and increments it, pop decrements it
/// and reads.
pub struct Chip8Stack {
    slots: Vec<u16>,
}

impl View for Chip8Stack {
    type V = Seq<u16>;

    closed spec fn view(&self) -> Seq<u16> {
        self.slots@
    }
}

impl Chip8Stack {
    /// The stack never holds more than 16 addresses.
    pub open spec fn wf(&self) -> bool {
        self@.len() <= STACK_CAPACITY
    }

    /// Creates an empty stack.
    pub fn new() -> (stack: Chip8Stack)
        ensures
            stack@ == Seq::<u16>::empty(),
            stack.wf(),
    {
        let stack = Chip8Stack { slots: Vec::new() };
        proof {
            assert(stack@ =~= Seq::<u16>::empty());
        }
        stack
    }

    /// Stores a return address on top of the stack, or fails with
    /// `StackError::Full` when all 16 slots are in use.
    pub fn push(&mut self, value: u16) -> (result: Result<(), StackError>)
        requires
            old(self).wf(),
        ensures
            final(self).wf(),
            old(self)@.len() < STACK_CAPACITY ==> result == Ok::<(), StackError>(())
                && final(self)@ == old(self)@.push(value),
            old(self)@.len() == STACK_CAPACITY ==> result == Err::<(), StackError>(StackError::Full)
                && final(self)@ == old(self)@,
    {
        if self.slots.len() < STACK_CAPACITY {
            self.slots.push(value);
            Ok(())
        } else {
            Err(StackError::Full)
        }
    }

    /// Removes and returns the top return address, or fails with
    /// `StackError::Empty` when the stack holds none.
    pub fn pop(&mut self) -> (result: Result<u16, StackError>)
        requires
            old(self).wf(),
        ensures
            final(self).wf(),
            old(self)@.len() > 0 ==> result == Ok::<u16, StackError>(old(self)@.last())
                && final(self)@ == old(self)@.drop_last(),
            old(self)@.len() == 0 ==> result == Err::<u16, StackError>(StackError::Empty)
                && final(self)@ == old(self)@,
    {
        match self.slots.pop() {
            Some(value) => Ok(value),
            None => Err(StackError::Empty),
        }
    }

    /// The number of live slots.
    pub fn len(&self) -> (n: usize)
        ensures
            n == self@.len(),
    {
        self.slots.len()
    }

    /// The index of the top slot, or 0 when the stack is empty.
    pub fn top_address(&self) -> (top: u8)
        requires
            self.wf(),
        ensures
            self@.len() == 0 ==> top == 0,
            self@.len() > 0 ==> top == self@.len() - 1,
    {
        if self.slots.len() == 0 {
            0
        } else {
            (self.slots.len() - 1) as u8
        }
    }
}

} // verus!
