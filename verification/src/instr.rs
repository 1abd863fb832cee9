//! Instructions and loaded functions.

use vstd::prelude::*;

use crate::value::calx_model;
use crate::value::Calx;
use crate::value::CalxType;

verus! {

/// One operation of the machine. Some carry immediate operands: a constant
/// to load, an index into locals, globals or a list, a branch depth, or a
/// block descriptor (`looped` marks a loop block, `from` and `range` give
/// the body's start offset and length inside the same instruction
/// sequence).
#[derive(Debug, PartialEq)]
pub enum CalxInstr {
    Param,
    Local,
    LocalSet(usize),
    LocalGet(usize),
    GlobalSet(usize),
    GlobalGet(usize),
    Load(Calx),
    Dup,
    Drop,
    IntAdd,
    IntMul,
    IntRem,
    IntNeg,
    IntShr,
    IntShl,
    Add,
    Mul,
    Div,
    Neg,
    NewList,
    ListGet(usize),
    ListSet(usize),
    NewLink,
    And,
    Or,
    Br(usize),
    BrIf(usize),
    Block { looped: bool, from: usize, range: usize },
    Echo,
    Call(usize, String),
    Unreachable,
    Nop,
    Quit,
}

/// A loaded function: its unique name, its ordered parameter types, and its
/// body. Immutable once loaded.
#[derive(Debug, PartialEq)]
pub struct CalxFunc {
    pub name: String,
    pub params_type: Vec<CalxType>,
    pub instrs: Vec<CalxInstr>,
}

/// Whether two instructions are the same operation with the same immediate
/// operands; a loaded constant is compared by its model.
pub open spec fn same_instr(a: CalxInstr, b: CalxInstr) -> bool {
    match a {
        CalxInstr::Load(c) => b matches CalxInstr::Load(d) && calx_model(d) == calx_model(c),
        _ => b == a,
    }
}

impl CalxInstr {
    /// A copy of this instruction, for diagnostic records.
    pub fn duplicate(&self) -> (r: CalxInstr)
        ensures
            same_instr(*self, r),
    {
        match self {
            CalxInstr::Param => CalxInstr::Param,
            CalxInstr::Local => CalxInstr::Local,
            CalxInstr::LocalSet(i) => CalxInstr::LocalSet(*i),
            CalxInstr::LocalGet(i) => CalxInstr::LocalGet(*i),
            CalxInstr::GlobalSet(i) => CalxInstr::GlobalSet(*i),
            CalxInstr::GlobalGet(i) => CalxInstr::GlobalGet(*i),
            CalxInstr::Load(c) => CalxInstr::Load(c.duplicate()),
            CalxInstr::Dup => CalxInstr::Dup,
            CalxInstr::Drop => CalxInstr::Drop,
            CalxInstr::IntAdd => CalxInstr::IntAdd,
            CalxInstr::IntMul => CalxInstr::IntMul,
            CalxInstr::IntRem => CalxInstr::IntRem,
            CalxInstr::IntNeg => CalxInstr::IntNeg,
            CalxInstr::IntShr => CalxInstr::IntShr,
            CalxInstr::IntShl => CalxInstr::IntShl,
            CalxInstr::Add => CalxInstr::Add,
            CalxInstr::Mul => CalxInstr::Mul,
            CalxInstr::Div => CalxInstr::Div,
            CalxInstr::Neg => CalxInstr::Neg,
            CalxInstr::NewList => CalxInstr::NewList,
            CalxInstr::ListGet(i) => CalxInstr::ListGet(*i),
            CalxInstr::ListSet(i) => CalxInstr::ListSet(*i),
            CalxInstr::NewLink => CalxInstr::NewLink,
            CalxInstr::And => CalxInstr::And,
            CalxInstr::Or => CalxInstr::Or,
            CalxInstr::Br(d) => CalxInstr::Br(*d),
            CalxInstr::BrIf(d) => CalxInstr::BrIf(*d),
            CalxInstr::Block { looped, from, range } => CalxInstr::Block {
                looped: *looped,
                from: *from,
                range: *range,
            },
            CalxInstr::Echo => CalxInstr::Echo,
            CalxInstr::Call(i, name) => CalxInstr::Call(*i, name.clone()),
            CalxInstr::Unreachable => CalxInstr::Unreachable,
            CalxInstr::Nop => CalxInstr::Nop,
            CalxInstr::Quit => CalxInstr::Quit,
        }
    }
}

/// A copy of an instruction sequence, for diagnostic records.
pub fn duplicate_instrs(instrs: &Vec<CalxInstr>) -> (r: Vec<CalxInstr>)
    ensures
        r@.len() == instrs@.len(),
        forall|i: int| 0 <= i < instrs@.len() ==> same_instr(instrs@[i], r@[i]),
{
    let mut out: Vec<CalxInstr> = Vec::new();
    let mut i: usize = 0;
    while i < instrs.len()
        invariant
            i <= instrs@.len(),
            out@.len() == i,
            forall|j: int| 0 <= j < i ==> same_instr(instrs@[j], out@[j]),
        decreases instrs@.len() - i,
    {
        out.push(instrs[i].duplicate());
        i = i + 1;
    }
    out
}

} // verus!
