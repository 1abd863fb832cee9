use calx_vm::Calx;
use calx_vm::CalxErrorKind;
use calx_vm::CalxFunc;
use calx_vm::CalxImport;
use calx_vm::CalxIndexSpace;
use calx_vm::CalxInstr;
use calx_vm::CalxType;
use calx_vm::CalxVM;

type Imp = fn(Vec<Calx>) -> Result<Calx, String>;

fn func(name: &str, params: Vec<CalxType>, instrs: Vec<CalxInstr>) -> CalxFunc {
    CalxFunc { name: name.to_string(), params_type: params, instrs }
}

fn machine(funcs: Vec<CalxFunc>, globals: Vec<Calx>) -> CalxVM<Imp> {
    CalxVM::new(funcs, globals, Vec::new())
}

fn run_main(instrs: Vec<CalxInstr>) -> (Result<(), calx_vm::CalxError>, Vec<Calx>) {
    let mut vm = machine(vec![func("main", vec![], instrs)], vec![]);
    let r = vm.run();
    (r, vm.stack)
}

#[test]
fn int_add_two_and_three() {
    let (r, stack) = run_main(vec![
        CalxInstr::Load(Calx::I64(2)),
        CalxInstr::Load(Calx::I64(3)),
        CalxInstr::IntAdd,
    ]);
    assert!(r.is_ok());
    assert_eq!(stack, vec![Calx::I64(5)]);
}

#[test]
fn float_add_yields_float() {
    let (r, stack) = run_main(vec![
        CalxInstr::Load(Calx::F64(2.0f64.to_bits())),
        CalxInstr::Load(Calx::F64(3.0f64.to_bits())),
        CalxInstr::Add,
    ]);
    assert!(r.is_ok());
    assert_eq!(stack, vec![Calx::F64((2.0f64 + 3.0f64).to_bits())]);
}

#[test]
fn float_mul_and_div() {
    let (r, stack) = run_main(vec![
        CalxInstr::Load(Calx::F64(1.5f64.to_bits())),
        CalxInstr::Load(Calx::F64(0.3f64.to_bits())),
        CalxInstr::Mul,
    ]);
    assert!(r.is_ok());
    assert_eq!(stack, vec![Calx::F64((1.5f64 * 0.3f64).to_bits())]);
    let (r2, stack2) = run_main(vec![
        CalxInstr::Load(Calx::F64(1.0f64.to_bits())),
        CalxInstr::Load(Calx::F64(3.0f64.to_bits())),
        CalxInstr::Div,
    ]);
    assert!(r2.is_ok());
    assert_eq!(stack2, vec![Calx::F64((1.0f64 / 3.0f64).to_bits())]);
}

#[test]
fn int_exact_add_rejects_floats() {
    let (r, stack) = run_main(vec![
        CalxInstr::Load(Calx::F64(2.0f64.to_bits())),
        CalxInstr::Load(Calx::F64(3.0f64.to_bits())),
        CalxInstr::IntAdd,
    ]);
    let e = r.unwrap_err();
    assert_eq!(e.kind, CalxErrorKind::TypeMismatch(CalxType::I64, CalxType::F64));
    // atomic failure: both operands still there
    assert_eq!(stack.len(), 2);
}

#[test]
fn loop_block_runs_three_times() {
    // the loop body decrements the local once per pass; the conditions that
    // feed BrIf are laid on the stack before the block opens
    let (r, stack) = run_main(vec![
        CalxInstr::Local,
        CalxInstr::Load(Calx::I64(3)),
        CalxInstr::LocalSet(0),
        CalxInstr::Load(Calx::Bool(false)),
        CalxInstr::Load(Calx::Bool(true)),
        CalxInstr::Load(Calx::Bool(true)),
        CalxInstr::Block { looped: true, from: 7, range: 6 },
        CalxInstr::LocalGet(0),
        CalxInstr::Load(Calx::I64(-1)),
        CalxInstr::IntAdd,
        CalxInstr::LocalSet(0),
        CalxInstr::BrIf(0),
        CalxInstr::Nop,
        CalxInstr::LocalGet(0),
    ]);
    assert!(r.is_ok());
    // decremented exactly three times: 3 -> 0
    assert_eq!(stack, vec![Calx::I64(0)]);
}

#[test]
fn arity_mismatch_leaves_stack_unchanged() {
    let main = func(
        "main",
        vec![],
        vec![
            CalxInstr::Load(Calx::I64(1)),
            CalxInstr::Call(1, "two_args".to_string()),
        ],
    );
    let callee = func("two_args", vec![CalxType::I64, CalxType::I64], vec![]);
    let mut vm = machine(vec![main, callee], vec![]);
    let e = vm.run().unwrap_err();
    assert_eq!(e.kind, CalxErrorKind::ArityMismatch(2, 1));
    assert_eq!(vm.stack, vec![Calx::I64(1)]);
}

#[test]
fn drop_on_empty_underflows() {
    let (r, stack) = run_main(vec![CalxInstr::Drop]);
    assert_eq!(r.unwrap_err().kind, CalxErrorKind::StackUnderflow);
    assert!(stack.is_empty());
}

#[test]
fn echo_pops_its_value() {
    let (r, stack) = run_main(vec![CalxInstr::Load(Calx::I64(7)), CalxInstr::Echo]);
    assert!(r.is_ok());
    assert!(stack.is_empty());
}

#[test]
fn globals_visible_across_nested_call() {
    let main = func(
        "main",
        vec![],
        vec![
            CalxInstr::Load(Calx::I64(42)),
            CalxInstr::GlobalSet(0),
            CalxInstr::Call(1, "read_global".to_string()),
        ],
    );
    let callee = func("read_global", vec![], vec![CalxInstr::GlobalGet(0)]);
    let mut vm = machine(vec![main, callee], vec![Calx::Nil]);
    assert!(vm.run().is_ok());
    assert_eq!(vm.stack, vec![Calx::I64(42)]);
}

#[test]
fn call_passes_arguments_in_order() {
    // args pushed left to right land in locals 0 and 1
    let main = func(
        "main",
        vec![],
        vec![
            CalxInstr::Load(Calx::I64(10)),
            CalxInstr::Load(Calx::I64(3)),
            CalxInstr::Call(1, "first_minus".to_string()),
        ],
    );
    let callee = func(
        "first_minus",
        vec![CalxType::I64, CalxType::I64],
        vec![
            CalxInstr::LocalGet(0),
            CalxInstr::LocalGet(1),
            CalxInstr::IntNeg,
            CalxInstr::IntAdd,
        ],
    );
    let mut vm = machine(vec![main, callee], vec![]);
    assert!(vm.run().is_ok());
    assert_eq!(vm.stack, vec![Calx::I64(7)]);
}

#[test]
fn import_call_pushes_host_answer() {
    let double: Imp = |xs| match xs.as_slice() {
        [Calx::I64(n)] => Ok(Calx::I64(n * 2)),
        _ => Err("bad args".to_string()),
    };
    let main = func(
        "main",
        vec![],
        vec![
            CalxInstr::Load(Calx::I64(21)),
            CalxInstr::Call(7, "double".to_string()),
        ],
    );
    let imports = vec![CalxImport { name: "double".to_string(), arity: 1, handler: double }];
    let mut vm = CalxVM::new(vec![main], vec![], imports);
    assert!(vm.run().is_ok());
    assert_eq!(vm.stack, vec![Calx::I64(42)]);
}

#[test]
fn import_failure_aborts_the_run() {
    let boom: Imp = |_| Err("boom".to_string());
    let main = func(
        "main",
        vec![],
        vec![CalxInstr::Call(9, "boom".to_string())],
    );
    let imports = vec![CalxImport { name: "boom".to_string(), arity: 0, handler: boom }];
    let mut vm = CalxVM::new(vec![main], vec![], imports);
    let e = vm.run().unwrap_err();
    assert_eq!(e.kind, CalxErrorKind::ImportFailed("boom".to_string()));
}

#[test]
fn unknown_name_is_reported() {
    let (r, _) = run_main(vec![CalxInstr::Call(9, "nope".to_string())]);
    assert_eq!(r.unwrap_err().kind, CalxErrorKind::UnknownImport("nope".to_string()));
}

#[test]
fn empty_program_cannot_run() {
    let mut vm = machine(vec![], vec![]);
    assert_eq!(vm.run().unwrap_err().kind, CalxErrorKind::UnknownFunction(0));
}

#[test]
fn quit_halts_whole_run_keeping_stack() {
    let (r, stack) = run_main(vec![
        CalxInstr::Load(Calx::I64(5)),
        CalxInstr::Quit,
        CalxInstr::Load(Calx::I64(6)),
    ]);
    assert!(r.is_ok());
    assert_eq!(stack, vec![Calx::I64(5)]);
}

#[test]
fn unreachable_fails() {
    let (r, _) = run_main(vec![CalxInstr::Unreachable]);
    assert_eq!(r.unwrap_err().kind, CalxErrorKind::UnreachableExecuted);
}

#[test]
fn branch_depth_checked() {
    let (r, _) = run_main(vec![CalxInstr::Br(0)]);
    assert_eq!(r.unwrap_err().kind, CalxErrorKind::BlockDepthExceeded(0, 0));
}

#[test]
fn branch_out_of_block_truncates_stack() {
    let (r, stack) = run_main(vec![
        CalxInstr::Block { looped: false, from: 1, range: 3 },
        CalxInstr::Load(Calx::I64(1)),
        CalxInstr::Br(0),
        CalxInstr::Load(Calx::I64(99)),
    ]);
    assert!(r.is_ok());
    assert!(stack.is_empty());
}

#[test]
fn falling_off_block_end_continues() {
    let (r, stack) = run_main(vec![
        CalxInstr::Block { looped: false, from: 1, range: 1 },
        CalxInstr::Load(Calx::I64(1)),
        CalxInstr::Load(Calx::I64(2)),
    ]);
    assert!(r.is_ok());
    assert_eq!(stack, vec![Calx::I64(1), Calx::I64(2)]);
}

#[test]
fn step_budget_is_enforced() {
    let main = func(
        "main",
        vec![],
        vec![
            CalxInstr::Block { looped: true, from: 1, range: 2 },
            CalxInstr::Load(Calx::Bool(true)),
            CalxInstr::BrIf(0),
        ],
    );
    let mut vm = machine(vec![main], vec![]);
    assert_eq!(vm.run_with_fuel(1000).unwrap_err().kind, CalxErrorKind::StepLimitReached);
}

#[test]
fn integer_shifts_and_remainder() {
    let (_, s1) = run_main(vec![
        CalxInstr::Load(Calx::I64(1)),
        CalxInstr::Load(Calx::I64(3)),
        CalxInstr::IntShl,
    ]);
    assert_eq!(s1, vec![Calx::I64(8)]);
    let (_, s2) = run_main(vec![
        CalxInstr::Load(Calx::I64(-8)),
        CalxInstr::Load(Calx::I64(2)),
        CalxInstr::IntShr,
    ]);
    assert_eq!(s2, vec![Calx::I64(-2)]);
    let (_, s3) = run_main(vec![
        CalxInstr::Load(Calx::I64(7)),
        CalxInstr::Load(Calx::I64(3)),
        CalxInstr::IntRem,
    ]);
    assert_eq!(s3, vec![Calx::I64(1)]);
}

#[test]
fn integer_division_by_zero_fails() {
    let (r, stack) = run_main(vec![
        CalxInstr::Load(Calx::I64(1)),
        CalxInstr::Load(Calx::I64(0)),
        CalxInstr::IntRem,
    ]);
    assert_eq!(r.unwrap_err().kind, CalxErrorKind::DivisionByZero);
    assert_eq!(stack.len(), 2);
    let (r2, _) = run_main(vec![
        CalxInstr::Load(Calx::I64(1)),
        CalxInstr::Load(Calx::I64(0)),
        CalxInstr::Div,
    ]);
    assert_eq!(r2.unwrap_err().kind, CalxErrorKind::DivisionByZero);
}

#[test]
fn generic_div_on_integers() {
    let (r, stack) = run_main(vec![
        CalxInstr::Load(Calx::I64(7)),
        CalxInstr::Load(Calx::I64(2)),
        CalxInstr::Div,
    ]);
    assert!(r.is_ok());
    assert_eq!(stack, vec![Calx::I64(3)]);
}

#[test]
fn negation_flips_float_sign() {
    let (r, stack) = run_main(vec![
        CalxInstr::Load(Calx::F64(2.5f64.to_bits())),
        CalxInstr::Neg,
    ]);
    assert!(r.is_ok());
    assert_eq!(stack, vec![Calx::F64((-2.5f64).to_bits())]);
}

#[test]
fn dup_duplicates_the_top() {
    let (r, stack) = run_main(vec![
        CalxInstr::Load(Calx::I64(4)),
        CalxInstr::Dup,
        CalxInstr::IntAdd,
    ]);
    assert!(r.is_ok());
    assert_eq!(stack, vec![Calx::I64(8)]);
}

#[test]
fn boolean_ops() {
    let (_, s1) = run_main(vec![
        CalxInstr::Load(Calx::Bool(true)),
        CalxInstr::Load(Calx::Bool(false)),
        CalxInstr::And,
    ]);
    assert_eq!(s1, vec![Calx::Bool(false)]);
    let (_, s2) = run_main(vec![
        CalxInstr::Load(Calx::Bool(true)),
        CalxInstr::Load(Calx::Bool(false)),
        CalxInstr::Or,
    ]);
    assert_eq!(s2, vec![Calx::Bool(true)]);
    let (r3, _) = run_main(vec![
        CalxInstr::Load(Calx::Bool(true)),
        CalxInstr::Load(Calx::I64(1)),
        CalxInstr::And,
    ]);
    assert_eq!(
        r3.unwrap_err().kind,
        CalxErrorKind::TypeMismatch(CalxType::Bool, CalxType::I64)
    );
}

#[test]
fn list_get_and_set() {
    let (r, stack) = run_main(vec![
        CalxInstr::Load(Calx::List(vec![Calx::I64(1), Calx::I64(2), Calx::I64(3)])),
        CalxInstr::Load(Calx::I64(9)),
        CalxInstr::ListSet(1),
        CalxInstr::ListGet(1),
    ]);
    assert!(r.is_ok());
    assert_eq!(stack, vec![Calx::I64(9)]);
}

#[test]
fn list_index_out_of_range() {
    let (r, _) = run_main(vec![
        CalxInstr::NewList,
        CalxInstr::ListGet(0),
    ]);
    assert_eq!(
        r.unwrap_err().kind,
        CalxErrorKind::IndexOutOfRange(CalxIndexSpace::Sequence, 0, 0)
    );
}

#[test]
fn local_index_out_of_range() {
    let (r, _) = run_main(vec![CalxInstr::LocalGet(0)]);
    assert_eq!(
        r.unwrap_err().kind,
        CalxErrorKind::IndexOutOfRange(CalxIndexSpace::Locals, 0, 0)
    );
}

#[test]
fn global_index_out_of_range() {
    let (r, _) = run_main(vec![
        CalxInstr::Load(Calx::I64(1)),
        CalxInstr::GlobalSet(3),
    ]);
    assert_eq!(
        r.unwrap_err().kind,
        CalxErrorKind::IndexOutOfRange(CalxIndexSpace::Globals, 3, 0)
    );
}

#[test]
fn new_link_collects_three_values() {
    let (r, stack) = run_main(vec![
        CalxInstr::Load(Calx::I64(1)),
        CalxInstr::Load(Calx::I64(2)),
        CalxInstr::Load(Calx::I64(3)),
        CalxInstr::NewLink,
    ]);
    assert!(r.is_ok());
    assert_eq!(
        stack,
        vec![Calx::Link(
            Box::new(Calx::I64(1)),
            Box::new(Calx::I64(2)),
            Box::new(Calx::I64(3)),
        )]
    );
}

#[test]
fn net_stack_effect_matches_static_sum() {
    // three instructions with effects +1, +1, -1: net +1
    let (r, stack) = run_main(vec![
        CalxInstr::Load(Calx::I64(2)),
        CalxInstr::Load(Calx::I64(3)),
        CalxInstr::IntAdd,
    ]);
    assert!(r.is_ok());
    assert_eq!(stack.len(), 1);
    // the same program on a deeper stack shifts the depth by the same sum
    let (r2, stack2) = run_main(vec![
        CalxInstr::Load(Calx::Nil),
        CalxInstr::Load(Calx::I64(2)),
        CalxInstr::Load(Calx::I64(3)),
        CalxInstr::IntAdd,
    ]);
    assert!(r2.is_ok());
    assert_eq!(stack2.len(), 2);
}

#[test]
fn text_rendering_of_values() {
    assert_eq!(Calx::Nil.to_text(), "nil");
    assert_eq!(Calx::Bool(true).to_text(), "true");
    assert_eq!(Calx::I64(-42).to_text(), "-42");
    assert_eq!(Calx::Str("hey".to_string()).to_text(), "hey");
    let l = Calx::List(vec![
        Calx::I64(1),
        Calx::Str("a".to_string()),
        Calx::List(vec![]),
    ]);
    assert_eq!(l.to_text(), "(1 a ())");
}

#[test]
fn text_rendering_of_floats_is_deterministic() {
    let a = Calx::F64(1.5f64.to_bits()).to_text();
    let b = Calx::F64(1.5f64.to_bits()).to_text();
    assert_eq!(a, b);
    assert!(!a.is_empty());
    assert_ne!(a, Calx::F64(2.5f64.to_bits()).to_text());
}

#[test]
fn wrapping_arithmetic_on_extremes() {
    let (r, stack) = run_main(vec![
        CalxInstr::Load(Calx::I64(i64::MAX)),
        CalxInstr::Load(Calx::I64(1)),
        CalxInstr::IntAdd,
    ]);
    assert!(r.is_ok());
    assert_eq!(stack, vec![Calx::I64(i64::MIN)]);
    let (r2, stack2) = run_main(vec![
        CalxInstr::Load(Calx::I64(i64::MIN)),
        CalxInstr::IntNeg,
    ]);
    assert!(r2.is_ok());
    assert_eq!(stack2, vec![Calx::I64(i64::MIN)]);
}

#[test]
fn duplicate_is_a_deep_copy() {
    let v = Calx::List(vec![Calx::I64(1), Calx::Str("x".to_string())]);
    let w = v.duplicate();
    assert_eq!(v, w);
}

#[test]
fn br_if_requires_a_boolean() {
    let (r, _) = run_main(vec![
        CalxInstr::Block { looped: false, from: 1, range: 2 },
        CalxInstr::Load(Calx::I64(1)),
        CalxInstr::BrIf(0),
    ]);
    assert_eq!(
        r.unwrap_err().kind,
        CalxErrorKind::TypeMismatch(CalxType::Bool, CalxType::I64)
    );
}

#[test]
fn branch_by_depth_reaches_outer_block() {
    // Br(1) from the inner block exits the outer one, skipping the rest
    let (r, stack) = run_main(vec![
        CalxInstr::Block { looped: false, from: 1, range: 4 },
        CalxInstr::Block { looped: false, from: 2, range: 2 },
        CalxInstr::Br(1),
        CalxInstr::Load(Calx::I64(1)),
        CalxInstr::Load(Calx::I64(2)),
        CalxInstr::Load(Calx::I64(3)),
    ]);
    assert!(r.is_ok());
    assert_eq!(stack, vec![Calx::I64(3)]);
}

#[test]
fn import_arity_checked_against_stack() {
    let id: Imp = |mut xs| Ok(xs.pop().unwrap_or(Calx::Nil));
    let main = func(
        "main",
        vec![],
        vec![
            CalxInstr::Load(Calx::I64(1)),
            CalxInstr::Call(3, "pick".to_string()),
        ],
    );
    let imports = vec![CalxImport { name: "pick".to_string(), arity: 2, handler: id }];
    let mut vm = CalxVM::new(vec![main], vec![], imports);
    let e = vm.run().unwrap_err();
    assert_eq!(e.kind, CalxErrorKind::ArityMismatch(2, 1));
    assert_eq!(vm.stack, vec![Calx::I64(1)]);
}

#[test]
fn text_rendering_of_link() {
    let l = Calx::Link(
        Box::new(Calx::I64(1)),
        Box::new(Calx::Nil),
        Box::new(Calx::Bool(false)),
    );
    assert_eq!(l.to_text(), "(link 1 nil false)");
}

#[test]
fn error_carries_message_and_recent_stack() {
    let (r, _) = run_main(vec![
        CalxInstr::Load(Calx::I64(7)),
        CalxInstr::Unreachable,
    ]);
    let e = r.unwrap_err();
    assert_eq!(e.message, "unreachable executed");
    assert_eq!(e.recent_stack, vec![Calx::I64(7)]);
    assert_eq!(e.instrs.len(), 2);
}
