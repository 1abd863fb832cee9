//! The structured failure record of a run.

use vstd::prelude::*;

use crate::instr::duplicate_instrs;
use crate::instr::same_instr;
use crate::instr::CalxInstr;
use crate::value::calx_model;
use crate::value::models;
use crate::value::Calx;
use crate::value::CalxType;

verus! {

/// Which index space an out-of-range access touched.
#[derive(Clone, Copy, PartialEq, Eq, Structural, Debug)]
pub enum CalxIndexSpace {
    Locals,
    Globals,
    Sequence,
    Function,
}

/// What went wrong. Every failure is fatal to the run.
#[derive(Clone, Debug, PartialEq)]
pub enum CalxErrorKind {
    /// An instruction needed more operands than the stack holds.
    StackUnderflow,
    /// An operand had the wrong tag: expected, then found.
    TypeMismatch(CalxType, CalxType),
    /// An index missed its space: the space, the index, the bound.
    IndexOutOfRange(CalxIndexSpace, usize, usize),
    /// A call found fewer arguments than the callee declares: expected,
    /// then available.
    ArityMismatch(usize, usize),
    /// A call resolved to neither the function table nor the import table.
    UnknownImport(String),
    /// A run was started without a function to enter.
    UnknownFunction(usize),
    /// A branch named more enclosing blocks than are open: the depth, the
    /// number of open blocks.
    BlockDepthExceeded(usize, usize),
    /// The always-failing instruction was executed.
    UnreachableExecuted,
    /// An exact integer division or remainder had divisor zero.
    DivisionByZero,
    /// A native import returned a failure message.
    ImportFailed(String),
    /// The step budget given to the run was used up before it finished.
    StepLimitReached,
}

/// The fixed human-readable message for each failure kind.
pub open spec fn kind_text(k: CalxErrorKind) -> Seq<char> {
    match k {
        CalxErrorKind::StackUnderflow => "stack underflow"@,
        CalxErrorKind::TypeMismatch(_, _) => "type mismatch"@,
        CalxErrorKind::IndexOutOfRange(_, _, _) => "index out of range"@,
        CalxErrorKind::ArityMismatch(_, _) => "arity mismatch"@,
        CalxErrorKind::UnknownImport(_) => "unknown import"@,
        CalxErrorKind::UnknownFunction(_) => "unknown function"@,
        CalxErrorKind::BlockDepthExceeded(_, _) => "block depth exceeded"@,
        CalxErrorKind::UnreachableExecuted => "unreachable executed"@,
        CalxErrorKind::DivisionByZero => "division by zero"@,
        CalxErrorKind::ImportFailed(_) => "import failed"@,
        CalxErrorKind::StepLimitReached => "step limit reached"@,
    }
}

/// The fixed human-readable message for a failure kind.
pub fn kind_message(k: &CalxErrorKind) -> (r: String)
    ensures
        r@ == kind_text(*k),
{
    match k {
        CalxErrorKind::StackUnderflow => "stack underflow".to_owned(),
        CalxErrorKind::TypeMismatch(_, _) => "type mismatch".to_owned(),
        CalxErrorKind::IndexOutOfRange(_, _, _) => "index out of range".to_owned(),
        CalxErrorKind::ArityMismatch(_, _) => "arity mismatch".to_owned(),
        CalxErrorKind::UnknownImport(_) => "unknown import".to_owned(),
        CalxErrorKind::UnknownFunction(_) => "unknown function".to_owned(),
        CalxErrorKind::BlockDepthExceeded(_, _) => "block depth exceeded".to_owned(),
        CalxErrorKind::UnreachableExecuted => "unreachable executed".to_owned(),
        CalxErrorKind::DivisionByZero => "division by zero".to_owned(),
        CalxErrorKind::ImportFailed(_) => "import failed".to_owned(),
        CalxErrorKind::StepLimitReached => "step limit reached".to_owned(),
    }
}

/// How many of the most recent operand-stack values an error records.
pub const RECENT_STACK_WINDOW: usize = 8;

/// A structured failure: what went wrong, the instruction sequence that was
/// active, and a bounded window of the most recent operand-stack values.
#[derive(Debug, PartialEq)]
pub struct CalxError {
    pub kind: CalxErrorKind,
    pub message: String,
    pub instrs: Vec<CalxInstr>,
    pub recent_stack: Vec<Calx>,
}

/// The start of the recorded window on a stack of length `n`.
pub open spec fn window_start(n: nat) -> int {
    if n > RECENT_STACK_WINDOW {
        n - RECENT_STACK_WINDOW
    } else {
        0
    }
}

impl CalxError {
    /// Build the failure record for the active instruction sequence and the
    /// current operand stack.
    pub fn at(kind: CalxErrorKind, instrs: &Vec<CalxInstr>, stack: &Vec<Calx>) -> (e: CalxError)
        ensures
            e.kind == kind,
            e.message@ == kind_text(kind),
            e.instrs@.len() == instrs@.len(),
            forall|i: int| 0 <= i < instrs@.len() ==> same_instr(instrs@[i], e.instrs@[i]),
            models(e.recent_stack@) == models(stack@).skip(window_start(stack@.len())),
    {
        let mut recent: Vec<Calx> = Vec::new();
        let start: usize = if stack.len() > RECENT_STACK_WINDOW {
            stack.len() - RECENT_STACK_WINDOW
        } else {
            0
        };
        let mut i: usize = start;
        while i < stack.len()
            invariant
                start <= i <= stack@.len(),
                recent@.len() == i - start,
                forall|j: int| 0 <= j < i - start ==>
                    calx_model(recent@[j]) == calx_model(stack@[start + j]),
            decreases stack@.len() - i,
        {
            recent.push(stack[i].duplicate());
            i = i + 1;
        }
        proof {
            crate::value::lemma_models_index(recent@);
            crate::value::lemma_models_index(stack@);
            crate::value::lemma_models_index(stack@.skip(window_start(stack@.len())));
            assert(models(recent@) =~= models(stack@).skip(window_start(stack@.len())));
        }
        let message = kind_message(&kind);
        CalxError { kind, message, instrs: duplicate_instrs(instrs), recent_stack: recent }
    }
}

} // verus!
