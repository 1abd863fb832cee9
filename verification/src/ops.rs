//! The operand-stack instructions: their specification and their executor.
//!
//! Every instruction here has a fixed static stack effect: it pops a fixed
//! number of operands and pushes a fixed number of results. `op_step` is the
//! specification of one such instruction on the stack model; `exec_stack_op`
//! is the verified executor. A failing instruction leaves the stack exactly
//! as it was.

use vstd::prelude::*;

use crate::err::CalxErrorKind;
use crate::err::CalxIndexSpace;
use crate::float::f64_add;
use crate::float::f64_bits_add;
use crate::float::f64_bits_div;
use crate::float::f64_bits_mul;
use crate::float::f64_bits_neg;
use crate::float::f64_div;
use crate::float::f64_mul;
use crate::float::F64_SIGN_BIT;
use crate::instr::CalxInstr;
use crate::value::calx_model;
use crate::value::lemma_models_index;
use crate::value::lemma_models_push;
use crate::value::lemma_models_take;
use crate::value::lemma_models_update;
use crate::value::models;
use crate::value::Calx;
use crate::value::CalxModel;
use crate::value::CalxType;

use std::io::Write;

verus! {

/// Exact integer division, with the one overflowing quotient wrapped.
pub open spec fn int_div(x: i64, y: i64) -> i64 {
    if x == i64::MIN && y == -1 {
        i64::MIN
    } else {
        match i64::checked_div(x, y) {
            Some(v) => v,
            None => i64::MIN,
        }
    }
}

/// Exact integer remainder, with the one overflowing case yielding zero.
pub open spec fn int_rem(x: i64, y: i64) -> i64 {
    if x == i64::MIN && y == -1 {
        0
    } else {
        match i64::checked_rem(x, y) {
            Some(v) => v,
            None => 0,
        }
    }
}

/// The shift count an integer shift uses: the low six bits of the operand,
/// as Rust's wrapping shifts do.
pub open spec fn shift_amount(y: i64) -> u32 {
    (y & 63) as u32
}

/// Whether an instruction is a pure operand-stack operation, with a fixed
/// static stack effect and no use of locals, globals or control state.
pub open spec fn is_stack_op(op: CalxInstr) -> bool {
    match op {
        CalxInstr::Load(_) => true,
        CalxInstr::Dup => true,
        CalxInstr::Drop => true,
        CalxInstr::IntAdd => true,
        CalxInstr::IntMul => true,
        CalxInstr::IntRem => true,
        CalxInstr::IntNeg => true,
        CalxInstr::IntShr => true,
        CalxInstr::IntShl => true,
        CalxInstr::Add => true,
        CalxInstr::Mul => true,
        CalxInstr::Div => true,
        CalxInstr::Neg => true,
        CalxInstr::NewList => true,
        CalxInstr::ListGet(_) => true,
        CalxInstr::ListSet(_) => true,
        CalxInstr::NewLink => true,
        CalxInstr::And => true,
        CalxInstr::Or => true,
        CalxInstr::Echo => true,
        _ => false,
    }
}

/// How many operands a stack operation pops.
pub open spec fn op_pops(op: CalxInstr) -> nat {
    match op {
        CalxInstr::Load(_) => 0,
        CalxInstr::Dup => 1,
        CalxInstr::Drop => 1,
        CalxInstr::Echo => 1,
        CalxInstr::IntNeg => 1,
        CalxInstr::Neg => 1,
        CalxInstr::NewList => 0,
        CalxInstr::ListGet(_) => 1,
        CalxInstr::ListSet(_) => 2,
        CalxInstr::NewLink => 3,
        _ => 2,
    }
}

/// How many results a stack operation pushes.
pub open spec fn op_pushes(op: CalxInstr) -> nat {
    match op {
        CalxInstr::Load(_) => 1,
        CalxInstr::Dup => 2,
        CalxInstr::Drop => 0,
        CalxInstr::Echo => 0,
        _ => 1,
    }
}

/// What one operand-stack instruction does to the stack model: the new
/// stack on success, or the failure kind, with the stack untouched.
pub open spec fn op_step(op: CalxInstr, s: Seq<CalxModel>) -> Result<Seq<CalxModel>, CalxErrorKind> {
    let n = s.len();
    match op {
        CalxInstr::Load(c) => Ok(s.push(calx_model(c))),
        CalxInstr::Dup => if n < 1 {
            Err(CalxErrorKind::StackUnderflow)
        } else {
            Ok(s.push(s.last()))
        },
        CalxInstr::Drop => if n < 1 {
            Err(CalxErrorKind::StackUnderflow)
        } else {
            Ok(s.take(n - 1))
        },
        CalxInstr::Echo => if n < 1 {
            Err(CalxErrorKind::StackUnderflow)
        } else {
            Ok(s.take(n - 1))
        },
        CalxInstr::IntAdd => int_bin_step(s, IntBinKind::Add),
        CalxInstr::IntMul => int_bin_step(s, IntBinKind::Mul),
        CalxInstr::IntRem => int_bin_step(s, IntBinKind::Rem),
        CalxInstr::IntShl => int_bin_step(s, IntBinKind::Shl),
        CalxInstr::IntShr => int_bin_step(s, IntBinKind::Shr),
        CalxInstr::IntNeg => if n < 1 {
            Err(CalxErrorKind::StackUnderflow)
        } else {
            match s[n - 1] {
                CalxModel::I64(x) => Ok(s.take(n - 1).push(CalxModel::I64(i64::wrapping_sub(0, x)))),
                m => Err(CalxErrorKind::TypeMismatch(CalxType::I64, m.tag())),
            }
        },
        CalxInstr::Add => num_bin_step(s, NumBinKind::Add),
        CalxInstr::Mul => num_bin_step(s, NumBinKind::Mul),
        CalxInstr::Div => num_bin_step(s, NumBinKind::Div),
        CalxInstr::Neg => if n < 1 {
            Err(CalxErrorKind::StackUnderflow)
        } else {
            match s[n - 1] {
                CalxModel::I64(x) => Ok(s.take(n - 1).push(CalxModel::I64(i64::wrapping_sub(0, x)))),
                CalxModel::F64(p) => Ok(s.take(n - 1).push(CalxModel::F64(p ^ F64_SIGN_BIT))),
                m => Err(CalxErrorKind::TypeMismatch(CalxType::I64, m.tag())),
            }
        },
        CalxInstr::And => bool_bin_step(s, true),
        CalxInstr::Or => bool_bin_step(s, false),
        CalxInstr::NewList => Ok(s.push(CalxModel::List(Seq::empty()))),
        CalxInstr::ListGet(i) => if n < 1 {
            Err(CalxErrorKind::StackUnderflow)
        } else {
            match s[n - 1] {
                CalxModel::List(ms) => if i < ms.len() {
                    Ok(s.take(n - 1).push(ms[i as int]))
                } else {
                    Err(CalxErrorKind::IndexOutOfRange(CalxIndexSpace::Sequence, i, ms.len() as usize))
                },
                m => Err(CalxErrorKind::TypeMismatch(CalxType::List, m.tag())),
            }
        },
        CalxInstr::ListSet(i) => if n < 2 {
            Err(CalxErrorKind::StackUnderflow)
        } else {
            match s[n - 2] {
                CalxModel::List(ms) => if i < ms.len() {
                    Ok(s.take(n - 2).push(CalxModel::List(ms.update(i as int, s[n - 1]))))
                } else {
                    Err(CalxErrorKind::IndexOutOfRange(CalxIndexSpace::Sequence, i, ms.len() as usize))
                },
                m => Err(CalxErrorKind::TypeMismatch(CalxType::List, m.tag())),
            }
        },
        CalxInstr::NewLink => if n < 3 {
            Err(CalxErrorKind::StackUnderflow)
        } else {
            Ok(s.take(n - 3).push(CalxModel::Link(
                Box::new(s[n - 3]),
                Box::new(s[n - 2]),
                Box::new(s[n - 1]),
            )))
        },
        _ => Err(CalxErrorKind::StackUnderflow),
    }
}

/// The exact-integer binary operations.
pub enum IntBinKind {
    Add,
    Mul,
    Rem,
    Shl,
    Shr,
}

/// What an exact-integer binary operation does to the stack model: both
/// operands must be integers; the deeper operand is the left-hand side.
pub open spec fn int_bin_step(s: Seq<CalxModel>, k: IntBinKind) -> Result<
    Seq<CalxModel>,
    CalxErrorKind,
> {
    let n = s.len();
    if n < 2 {
        Err(CalxErrorKind::StackUnderflow)
    } else {
        match (s[n - 2], s[n - 1]) {
            (CalxModel::I64(x), CalxModel::I64(y)) => match k {
                IntBinKind::Add => Ok(s.take(n - 2).push(CalxModel::I64(i64::wrapping_add(x, y)))),
                IntBinKind::Mul => Ok(s.take(n - 2).push(CalxModel::I64(i64::wrapping_mul(x, y)))),
                IntBinKind::Rem => if y == 0 {
                    Err(CalxErrorKind::DivisionByZero)
                } else {
                    Ok(s.take(n - 2).push(CalxModel::I64(int_rem(x, y))))
                },
                IntBinKind::Shl => Ok(s.take(n - 2).push(CalxModel::I64(i64::wrapping_shl(x, shift_amount(y))))),
                IntBinKind::Shr => Ok(s.take(n - 2).push(CalxModel::I64(i64::wrapping_shr(x, shift_amount(y))))),
            },
            (CalxModel::I64(_), m) => Err(CalxErrorKind::TypeMismatch(CalxType::I64, m.tag())),
            (m, _) => Err(CalxErrorKind::TypeMismatch(CalxType::I64, m.tag())),
        }
    }
}

/// The generic numeric binary operations.
pub enum NumBinKind {
    Add,
    Mul,
    Div,
}

/// What a generic numeric binary operation does to the stack model: the
/// operands are type-checked against the deeper operand's own tag, integer
/// or float; the deeper operand is the left-hand side.
pub open spec fn num_bin_step(s: Seq<CalxModel>, k: NumBinKind) -> Result<
    Seq<CalxModel>,
    CalxErrorKind,
> {
    let n = s.len();
    if n < 2 {
        Err(CalxErrorKind::StackUnderflow)
    } else {
        match (s[n - 2], s[n - 1]) {
            (CalxModel::I64(x), CalxModel::I64(y)) => match k {
                NumBinKind::Add => Ok(s.take(n - 2).push(CalxModel::I64(i64::wrapping_add(x, y)))),
                NumBinKind::Mul => Ok(s.take(n - 2).push(CalxModel::I64(i64::wrapping_mul(x, y)))),
                NumBinKind::Div => if y == 0 {
                    Err(CalxErrorKind::DivisionByZero)
                } else {
                    Ok(s.take(n - 2).push(CalxModel::I64(int_div(x, y))))
                },
            },
            (CalxModel::F64(p), CalxModel::F64(q)) => match k {
                NumBinKind::Add => Ok(s.take(n - 2).push(CalxModel::F64(f64_add(p, q)))),
                NumBinKind::Mul => Ok(s.take(n - 2).push(CalxModel::F64(f64_mul(p, q)))),
                NumBinKind::Div => Ok(s.take(n - 2).push(CalxModel::F64(f64_div(p, q)))),
            },
            (CalxModel::I64(_), m) => Err(CalxErrorKind::TypeMismatch(CalxType::I64, m.tag())),
            (CalxModel::F64(_), m) => Err(CalxErrorKind::TypeMismatch(CalxType::F64, m.tag())),
            (m, _) => Err(CalxErrorKind::TypeMismatch(CalxType::I64, m.tag())),
        }
    }
}

/// What a boolean binary operation does to the stack model.
pub open spec fn bool_bin_step(s: Seq<CalxModel>, conjunction: bool) -> Result<
    Seq<CalxModel>,
    CalxErrorKind,
> {
    let n = s.len();
    if n < 2 {
        Err(CalxErrorKind::StackUnderflow)
    } else {
        match (s[n - 2], s[n - 1]) {
            (CalxModel::Bool(p), CalxModel::Bool(q)) => Ok(
                s.take(n - 2).push(CalxModel::Bool(if conjunction { p && q } else { p || q })),
            ),
            (CalxModel::Bool(_), m) => Err(CalxErrorKind::TypeMismatch(CalxType::Bool, m.tag())),
            (m, _) => Err(CalxErrorKind::TypeMismatch(CalxType::Bool, m.tag())),
        }
    }
}

/// Relies on std::io::Stdout / writeln: prints one value's debug rendering;
/// the machine's state does not depend on what is written.
#[verifier::external_body]
fn emit_value(v: &Calx) {
    let _ = writeln!(std::io::stdout(), "{:?}", v);
}

/// Drop `npop` values off the top of the stack.
fn shrink(stack: &mut Vec<Calx>, npop: usize)
    requires
        npop <= old(stack)@.len(),
    ensures
        models(final(stack)@) == models(old(stack)@).take(old(stack)@.len() - npop),
{
    let keep = stack.len() - npop;
    stack.truncate(keep);
    proof {
        lemma_models_take(old(stack)@, keep as int);
    }
}

/// Drop `npop` values off the top of the stack, then push one result.
fn shrink_push(stack: &mut Vec<Calx>, npop: usize, v: Calx)
    requires
        npop <= old(stack)@.len(),
    ensures
        models(final(stack)@) == models(old(stack)@).take(old(stack)@.len() - npop).push(
            calx_model(v),
        ),
{
    let keep = stack.len() - npop;
    stack.truncate(keep);
    proof {
        lemma_models_take(old(stack)@, keep as int);
    }
    let ghost mid = stack@;
    stack.push(v);
    proof {
        lemma_models_push(mid, v);
    }
}

/// Read the operand at `i` as an integer, or report the mismatch.
fn read_i64(stack: &Vec<Calx>, i: usize) -> (r: Result<i64, CalxErrorKind>)
    requires
        i < stack@.len(),
    ensures
        match r {
            Ok(x) => calx_model(stack@[i as int]) == CalxModel::I64(x),
            Err(k) => !(calx_model(stack@[i as int]) is I64) && k == CalxErrorKind::TypeMismatch(
                CalxType::I64,
                calx_model(stack@[i as int]).tag(),
            ),
        },
{
    match &stack[i] {
        Calx::I64(v) => Ok(*v),
        other => Err(CalxErrorKind::TypeMismatch(CalxType::I64, other.tag())),
    }
}

/// Read the operand at `i` as a boolean, or report the mismatch.
fn read_bool(stack: &Vec<Calx>, i: usize) -> (r: Result<bool, CalxErrorKind>)
    requires
        i < stack@.len(),
    ensures
        match r {
            Ok(x) => calx_model(stack@[i as int]) == CalxModel::Bool(x),
            Err(k) => !(calx_model(stack@[i as int]) is Bool) && k == CalxErrorKind::TypeMismatch(
                CalxType::Bool,
                calx_model(stack@[i as int]).tag(),
            ),
        },
{
    match &stack[i] {
        Calx::Bool(v) => Ok(*v),
        other => Err(CalxErrorKind::TypeMismatch(CalxType::Bool, other.tag())),
    }
}

/// Execute one operand-stack instruction. On success the stack becomes what
/// `op_step` says; on failure the reported kind is what `op_step` says and
/// the stack is untouched.
pub fn exec_stack_op(stack: &mut Vec<Calx>, op: &CalxInstr) -> (r: Result<(), CalxErrorKind>)
    requires
        is_stack_op(*op),
    ensures
        match op_step(*op, models(old(stack)@)) {
            Ok(s2) => r is Ok && models(final(stack)@) == s2,
            Err(k) => r == Err::<(), CalxErrorKind>(k) && final(stack)@ == old(stack)@,
        },
{
    proof {
        lemma_models_index(stack@);
    }
    let n = stack.len();
    match op {
        CalxInstr::Load(c) => {
            let v = c.duplicate();
            let ghost s0 = stack@;
            stack.push(v);
            proof {
                lemma_models_push(s0, v);
            }
            Ok(())
        }
        CalxInstr::Dup => {
            if n < 1 {
                return Err(CalxErrorKind::StackUnderflow);
            }
            let v = stack[n - 1].duplicate();
            let ghost s0 = stack@;
            stack.push(v);
            proof {
                lemma_models_push(s0, v);
            }
            Ok(())
        }
        CalxInstr::Drop => {
            if n < 1 {
                return Err(CalxErrorKind::StackUnderflow);
            }
            shrink(stack, 1);
            Ok(())
        }
        CalxInstr::Echo => {
            if n < 1 {
                return Err(CalxErrorKind::StackUnderflow);
            }
            let v = match stack.pop() {
                Some(v) => v,
                None => {
                    return Err(CalxErrorKind::StackUnderflow);
                }
            };
            emit_value(&v);
            proof {
                lemma_models_take(old(stack)@, n - 1);
                assert(old(stack)@.drop_last() =~= old(stack)@.take(n - 1));
            }
            Ok(())
        }
        CalxInstr::IntAdd => {
            if n < 2 {
                return Err(CalxErrorKind::StackUnderflow);
            }
            let x = match read_i64(stack, n - 2) {
                Ok(v) => v,
                Err(k) => {
                    return Err(k);
                }
            };
            let y = match read_i64(stack, n - 1) {
                Ok(v) => v,
                Err(k) => {
                    return Err(k);
                }
            };
            shrink_push(stack, 2, Calx::I64(x.wrapping_add(y)));
            Ok(())
        }
        CalxInstr::IntMul => {
            if n < 2 {
                return Err(CalxErrorKind::StackUnderflow);
            }
            let x = match read_i64(stack, n - 2) {
                Ok(v) => v,
                Err(k) => {
                    return Err(k);
                }
            };
            let y = match read_i64(stack, n - 1) {
                Ok(v) => v,
                Err(k) => {
                    return Err(k);
                }
            };
            shrink_push(stack, 2, Calx::I64(x.wrapping_mul(y)));
            Ok(())
        }
        CalxInstr::IntRem => {
            if n < 2 {
                return Err(CalxErrorKind::StackUnderflow);
            }
            let x = match read_i64(stack, n - 2) {
                Ok(v) => v,
                Err(k) => {
                    return Err(k);
                }
            };
            let y = match read_i64(stack, n - 1) {
                Ok(v) => v,
                Err(k) => {
                    return Err(k);
                }
            };
            if y == 0 {
                return Err(CalxErrorKind::DivisionByZero);
            }
            let v: i64 = if x == i64::MIN && y == -1 {
                0
            } else {
                match x.checked_rem(y) {
                    Some(v) => v,
                    None => 0,
                }
            };
            shrink_push(stack, 2, Calx::I64(v));
            Ok(())
        }
        CalxInstr::IntShl => {
            if n < 2 {
                return Err(CalxErrorKind::StackUnderflow);
            }
            let x = match read_i64(stack, n - 2) {
                Ok(v) => v,
                Err(k) => {
                    return Err(k);
                }
            };
            let y = match read_i64(stack, n - 1) {
                Ok(v) => v,
                Err(k) => {
                    return Err(k);
                }
            };
            proof {
                assert(0 <= (y & 63) < 64) by (bit_vector);
            }
            let sh: u32 = (y & 63) as u32;
            shrink_push(stack, 2, Calx::I64(x.wrapping_shl(sh)));
            Ok(())
        }
        CalxInstr::IntShr => {
            if n < 2 {
                return Err(CalxErrorKind::StackUnderflow);
            }
            let x = match read_i64(stack, n - 2) {
                Ok(v) => v,
                Err(k) => {
                    return Err(k);
                }
            };
            let y = match read_i64(stack, n - 1) {
                Ok(v) => v,
                Err(k) => {
                    return Err(k);
                }
            };
            proof {
                assert(0 <= (y & 63) < 64) by (bit_vector);
            }
            let sh: u32 = (y & 63) as u32;
            shrink_push(stack, 2, Calx::I64(x.wrapping_shr(sh)));
            Ok(())
        }
        CalxInstr::IntNeg => {
            if n < 1 {
                return Err(CalxErrorKind::StackUnderflow);
            }
            let x = match read_i64(stack, n - 1) {
                Ok(v) => v,
                Err(k) => {
                    return Err(k);
                }
            };
            shrink_push(stack, 1, Calx::I64(0i64.wrapping_sub(x)));
            Ok(())
        }
        CalxInstr::Add => exec_num_bin(stack, NumBinKind::Add),
        CalxInstr::Mul => exec_num_bin(stack, NumBinKind::Mul),
        CalxInstr::Div => exec_num_bin(stack, NumBinKind::Div),
        CalxInstr::Neg => {
            if n < 1 {
                return Err(CalxErrorKind::StackUnderflow);
            }
            let m = match &stack[n - 1] {
                Calx::I64(x) => Ok(Calx::I64(0i64.wrapping_sub(*x))),
                Calx::F64(p) => Ok(Calx::F64(f64_bits_neg(*p))),
                other => Err(CalxErrorKind::TypeMismatch(CalxType::I64, other.tag())),
            };
            match m {
                Ok(v) => {
                    shrink_push(stack, 1, v);
                    Ok(())
                }
                Err(k) => Err(k),
            }
        }
        CalxInstr::And => {
            if n < 2 {
                return Err(CalxErrorKind::StackUnderflow);
            }
            let p = match read_bool(stack, n - 2) {
                Ok(v) => v,
                Err(k) => {
                    return Err(k);
                }
            };
            let q = match read_bool(stack, n - 1) {
                Ok(v) => v,
                Err(k) => {
                    return Err(k);
                }
            };
            shrink_push(stack, 2, Calx::Bool(p && q));
            Ok(())
        }
        CalxInstr::Or => {
            if n < 2 {
                return Err(CalxErrorKind::StackUnderflow);
            }
            let p = match read_bool(stack, n - 2) {
                Ok(v) => v,
                Err(k) => {
                    return Err(k);
                }
            };
            let q = match read_bool(stack, n - 1) {
                Ok(v) => v,
                Err(k) => {
                    return Err(k);
                }
            };
            shrink_push(stack, 2, Calx::Bool(p || q));
            Ok(())
        }
        CalxInstr::NewList => {
            let ghost s0 = stack@;
            let xs: Vec<Calx> = Vec::new();
            let v = Calx::List(xs);
            proof {
                assert(models(xs@) == Seq::<CalxModel>::empty());
                lemma_models_push(s0, v);
            }
            stack.push(v);
            Ok(())
        }
        CalxInstr::ListGet(i) => {
            if n < 1 {
                return Err(CalxErrorKind::StackUnderflow);
            }
            let idx = *i;
            let got = match &stack[n - 1] {
                Calx::List(xs) => {
                    proof {
                        lemma_models_index(xs@);
                    }
                    if idx < xs.len() {
                        Ok(xs[idx].duplicate())
                    } else {
                        Err(CalxErrorKind::IndexOutOfRange(CalxIndexSpace::Sequence, idx, xs.len()))
                    }
                }
                other => Err(CalxErrorKind::TypeMismatch(CalxType::List, other.tag())),
            };
            match got {
                Ok(v) => {
                    shrink_push(stack, 1, v);
                    Ok(())
                }
                Err(k) => Err(k),
            }
        }
        CalxInstr::ListSet(i) => {
            if n < 2 {
                return Err(CalxErrorKind::StackUnderflow);
            }
            let idx = *i;
            match &stack[n - 2] {
                Calx::List(xs) => {
                    proof {
                        lemma_models_index(xs@);
                    }
                    if idx >= xs.len() {
                        return Err(CalxErrorKind::IndexOutOfRange(
                            CalxIndexSpace::Sequence,
                            idx,
                            xs.len(),
                        ));
                    }
                }
                other => {
                    return Err(CalxErrorKind::TypeMismatch(CalxType::List, other.tag()));
                }
            }
            let v = match stack.pop() {
                Some(v) => v,
                None => {
                    return Err(CalxErrorKind::StackUnderflow);
                }
            };
            let lst = match stack.pop() {
                Some(l) => l,
                None => {
                    return Err(CalxErrorKind::StackUnderflow);
                }
            };
            match lst {
                Calx::List(mut xs) => {
                    let ghost xs0 = xs@;
                    xs[idx] = v;
                    proof {
                        lemma_models_update(xs0, idx as int, v);
                        lemma_models_index(xs0);
                        assert(old(stack)@.drop_last().drop_last() =~= old(stack)@.take(n - 2));
                        lemma_models_take(old(stack)@, n - 2);
                    }
                    let out = Calx::List(xs);
                    let ghost mid = stack@;
                    stack.push(out);
                    proof {
                        lemma_models_push(mid, out);
                    }
                    Ok(())
                }
                _ => {
                    proof {
                        assert(false);
                    }
                    Err(CalxErrorKind::StackUnderflow)
                }
            }
        }
        CalxInstr::NewLink => {
            if n < 3 {
                return Err(CalxErrorKind::StackUnderflow);
            }
            let z = match stack.pop() {
                Some(v) => v,
                None => {
                    return Err(CalxErrorKind::StackUnderflow);
                }
            };
            let y = match stack.pop() {
                Some(v) => v,
                None => {
                    return Err(CalxErrorKind::StackUnderflow);
                }
            };
            let x = match stack.pop() {
                Some(v) => v,
                None => {
                    return Err(CalxErrorKind::StackUnderflow);
                }
            };
            proof {
                assert(old(stack)@.drop_last().drop_last().drop_last() =~= old(stack)@.take(n - 3));
                lemma_models_take(old(stack)@, n - 3);
            }
            let out = Calx::Link(Box::new(x), Box::new(y), Box::new(z));
            let ghost mid = stack@;
            stack.push(out);
            proof {
                lemma_models_push(mid, out);
            }
            Ok(())
        }
        _ => {
            proof {
                assert(false);
            }
            Err(CalxErrorKind::StackUnderflow)
        }
    }
}

/// Running a sequence of operand-stack instructions on a stack model, one
/// after the other, stopping at the first failure.
pub open spec fn run_ops(ops: Seq<CalxInstr>, s: Seq<CalxModel>) -> Result<
    Seq<CalxModel>,
    CalxErrorKind,
>
    decreases ops.len(),
{
    if ops.len() == 0 {
        Ok(s)
    } else {
        match op_step(ops[0], s) {
            Ok(s2) => run_ops(ops.drop_first(), s2),
            Err(k) => Err(k),
        }
    }
}

/// The net static stack effect of a sequence of operand-stack
/// instructions: the sum of each instruction's pushes less its pops.
pub open spec fn ops_effect(ops: Seq<CalxInstr>) -> int
    decreases ops.len(),
{
    if ops.len() == 0 {
        0
    } else {
        op_pushes(ops[0]) - op_pops(ops[0]) + ops_effect(ops.drop_first())
    }
}

/// Each operand-stack instruction has a fixed static stack effect: when it
/// succeeds the depth changes by exactly its pushes less its pops, and on a
/// stack too shallow for its pops it fails with an underflow before any
/// effect is applied.
pub proof fn lemma_op_static_effect(op: CalxInstr, s: Seq<CalxModel>)
    requires
        is_stack_op(op),
    ensures
        op_step(op, s) matches Ok(s2) ==> s2.len() == s.len() - op_pops(op) + op_pushes(op),
        s.len() < op_pops(op) ==> op_step(op, s) == Err::<Seq<CalxModel>, CalxErrorKind>(
            CalxErrorKind::StackUnderflow,
        ),
{
}

/// The net change in operand-stack depth over any sequence of
/// operand-stack instructions that runs to completion equals the sum of
/// the instructions' static stack effects.
pub proof fn lemma_run_ops_net_effect(ops: Seq<CalxInstr>, s: Seq<CalxModel>)
    requires
        forall|i: int| 0 <= i < ops.len() ==> is_stack_op(#[trigger] ops[i]),
        run_ops(ops, s) is Ok,
    ensures
        run_ops(ops, s)->Ok_0.len() == s.len() + ops_effect(ops),
    decreases ops.len(),
{
    if ops.len() > 0 {
        assert(forall|i: int|
            0 <= i < ops.drop_first().len() ==> #[trigger] ops.drop_first()[i] == ops[i + 1]);
        match op_step(ops[0], s) {
            Ok(s2) => {
                lemma_op_static_effect(ops[0], s);
                lemma_run_ops_net_effect(ops.drop_first(), s2);
            },
            Err(_) => {},
        }
    }
}

/// Two instructions that are the same operation (a loaded constant equal
/// by model) have the same stack-operation classification and effect.
pub proof fn lemma_same_instr_op_step(a: CalxInstr, b: CalxInstr, s: Seq<CalxModel>)
    requires
        crate::instr::same_instr(a, b),
    ensures
        is_stack_op(b) == is_stack_op(a),
        op_step(b, s) == op_step(a, s),
{
    match a {
        CalxInstr::Load(c) => {
            assert(b matches CalxInstr::Load(d) && calx_model(d) == calx_model(c));
        },
        _ => {
            assert(b == a);
        },
    }
}

/// Execute a generic numeric binary operation.
fn exec_num_bin(stack: &mut Vec<Calx>, k: NumBinKind) -> (r: Result<(), CalxErrorKind>)
    ensures
        match num_bin_step(models(old(stack)@), k) {
            Ok(s2) => r is Ok && models(final(stack)@) == s2,
            Err(kind) => r == Err::<(), CalxErrorKind>(kind) && final(stack)@ == old(stack)@,
        },
{
    proof {
        lemma_models_index(stack@);
    }
    let n = stack.len();
    if n < 2 {
        return Err(CalxErrorKind::StackUnderflow);
    }
    let m = match &stack[n - 2] {
        Calx::I64(a) => {
            let x = *a;
            match &stack[n - 1] {
                Calx::I64(b) => {
                    let y = *b;
                    match k {
                        NumBinKind::Add => Ok(Calx::I64(x.wrapping_add(y))),
                        NumBinKind::Mul => Ok(Calx::I64(x.wrapping_mul(y))),
                        NumBinKind::Div => {
                            if y == 0 {
                                Err(CalxErrorKind::DivisionByZero)
                            } else if x == i64::MIN && y == -1 {
                                Ok(Calx::I64(i64::MIN))
                            } else {
                                let q = match x.checked_div(y) {
                                    Some(v) => v,
                                    None => i64::MIN,
                                };
                                Ok(Calx::I64(q))
                            }
                        }
                    }
                }
                other => Err(CalxErrorKind::TypeMismatch(CalxType::I64, other.tag())),
            }
        }
        Calx::F64(a) => {
            let p = *a;
            match &stack[n - 1] {
                Calx::F64(b) => {
                    let q = *b;
                    match k {
                        NumBinKind::Add => Ok(Calx::F64(f64_bits_add(p, q))),
                        NumBinKind::Mul => Ok(Calx::F64(f64_bits_mul(p, q))),
                        NumBinKind::Div => Ok(Calx::F64(f64_bits_div(p, q))),
                    }
                }
                other => Err(CalxErrorKind::TypeMismatch(CalxType::F64, other.tag())),
            }
        }
        other => Err(CalxErrorKind::TypeMismatch(CalxType::I64, other.tag())),
    };
    match m {
        Ok(v) => {
            shrink_push(stack, 2, v);
            Ok(())
        }
        Err(kind) => Err(kind),
    }
}

} // verus!
