//! Call frames and open control blocks.

use vstd::prelude::*;

use crate::value::Calx;

verus! {

/// One open control block inside a frame: whether it is a loop, its body's
/// start offset and length in the enclosing instruction sequence, and the
/// operand-stack depth when the block was entered (branching out truncates
/// the stack back to that depth).
#[derive(Clone, Copy, PartialEq, Eq, Structural, Debug)]
pub struct CalxBlock {
    pub looped: bool,
    pub from: usize,
    pub range: usize,
    pub initial_stack_size: usize,
}

/// One call activation: the index of its function in the machine's function
/// table, its locals (parameters followed by declared locals), its program
/// counter, and the LIFO stack of currently open blocks.
#[derive(Debug, PartialEq)]
pub struct CalxFrame {
    pub func: usize,
    pub locals: Vec<Calx>,
    pub pointer: usize,
    pub blocks: Vec<CalxBlock>,
}

} // verus!
