//! The machine: state, dispatch, call and branch mechanics.

use vstd::prelude::*;

use crate::err::window_start;
use crate::err::CalxError;
use crate::err::CalxErrorKind;
use crate::err::CalxIndexSpace;
use crate::frame::CalxBlock;
use crate::frame::CalxFrame;
use crate::instr::same_instr;
use crate::instr::CalxFunc;
use crate::instr::CalxInstr;
use crate::ops::exec_stack_op;
use crate::ops::is_stack_op;
use crate::ops::op_step;
use crate::value::calx_model;
use crate::value::lemma_models_index;
use crate::value::lemma_models_push;
use crate::value::lemma_models_take;
use crate::value::lemma_models_update;
use crate::value::models;
use crate::value::Calx;
use crate::value::CalxModel;
use crate::value::CalxType;

verus! {

/// What one successful step of the machine reports: the run goes on, or it
/// is finished and the operand stack holds the result values.
#[derive(Clone, Copy, PartialEq, Eq, Structural, Debug)]
pub enum StepOut {
    Continue,
    Done,
}

/// One import binding: a name, the declared arity, and the host's callable.
pub struct CalxImport<F> {
    pub name: String,
    pub arity: usize,
    pub handler: F,
}

/// The machine: the loaded function table, the global store, the operand
/// stack shared by the whole call chain, the call stack of frames (the
/// active frame last), and the import table.
pub struct CalxVM<F> {
    pub funcs: Vec<CalxFunc>,
    pub globals: Vec<Calx>,
    pub stack: Vec<Calx>,
    pub frames: Vec<CalxFrame>,
    pub imports: Vec<CalxImport<F>>,
}

/// Move the values above `start` off the stack, in push order.
fn split_off_tail(stack: &mut Vec<Calx>, start: usize) -> (out: Vec<Calx>)
    requires
        start <= old(stack)@.len(),
    ensures
        models(out@) == models(old(stack)@).skip(start as int),
        models(final(stack)@) == models(old(stack)@).take(start as int),
{
    let mut out: Vec<Calx> = Vec::new();
    let mut i: usize = start;
    while i < stack.len()
        invariant
            start <= i <= stack@.len(),
            stack@ == old(stack)@,
            out@.len() == i - start,
            forall|j: int|
                0 <= j < i - start ==> calx_model(#[trigger] out@[j]) == calx_model(
                    stack@[start + j],
                ),
        decreases stack@.len() - i,
    {
        let v = stack[i].duplicate();
        out.push(v);
        i = i + 1;
    }
    stack.truncate(start);
    proof {
        lemma_models_take(old(stack)@, start as int);
        lemma_models_index(out@);
        lemma_models_index(old(stack)@);
        assert(models(out@) =~= models(old(stack)@).skip(start as int));
    }
    out
}

/// A block descriptor lies inside an instruction sequence of length `n`.
pub open spec fn block_ok(b: CalxBlock, n: nat) -> bool {
    b.from + b.range <= n
}

/// A frame points into an existing function, with its program counter and
/// all its open blocks inside that function's body.
pub open spec fn frame_ok(fr: CalxFrame, funcs: Seq<CalxFunc>) -> bool {
    &&& (fr.func as int) < funcs.len()
    &&& fr.pointer <= funcs[fr.func as int].instrs@.len()
    &&& forall|i: int|
        0 <= i < fr.blocks@.len() ==> block_ok(
            #[trigger] fr.blocks@[i],
            funcs[fr.func as int].instrs@.len(),
        )
}

/// The index of the first import bound to `name`, if any.
pub open spec fn find_import_at<F>(imps: Seq<CalxImport<F>>, name: Seq<char>) -> Option<int>
    decreases imps.len(),
{
    if imps.len() == 0 {
        None
    } else if imps[0].name@ == name {
        Some(0)
    } else {
        match find_import_at(imps.drop_first(), name) {
            Some(k) => Some(k + 1),
            None => None,
        }
    }
}

/// The found index names the import searched for, and a miss means no
/// import carries the name.
pub proof fn lemma_find_import_at<F>(imps: Seq<CalxImport<F>>, name: Seq<char>)
    ensures
        match find_import_at(imps, name) {
            Some(k) => 0 <= k < imps.len() && imps[k].name@ == name,
            None => forall|i: int| 0 <= i < imps.len() ==> (#[trigger] imps[i].name@) != name,
        },
    decreases imps.len(),
{
    if imps.len() > 0 && imps[0].name@ != name {
        lemma_find_import_at(imps.drop_first(), name);
        match find_import_at(imps.drop_first(), name) {
            Some(k) => {
                assert(imps[k + 1] == imps.drop_first()[k]);
            },
            None => {
                assert forall|i: int| 0 <= i < imps.len() implies (#[trigger] imps[i].name@)
                    != name by {
                    if i >= 1 {
                        assert(imps[i] == imps.drop_first()[i - 1]);
                        assert(imps.drop_first()[i - 1].name@ != name);
                    }
                }
            },
        }
    }
}

impl<F: Fn(Vec<Calx>) -> Result<Calx, String>> CalxVM<F> {
    /// Every frame of the machine is well formed.
    pub open spec fn wf(self) -> bool {
        forall|i: int|
            0 <= i < self.frames@.len() ==> frame_ok(#[trigger] self.frames@[i], self.funcs@)
    }

    /// The active frame.
    pub open spec fn top(self) -> CalxFrame {
        self.frames@.last()
    }

    /// The instruction sequence of the active frame's function.
    pub open spec fn code(self) -> Seq<CalxInstr> {
        self.funcs@[self.top().func as int].instrs@
    }

    /// Every import's callable accepts every argument list; the machine can
    /// hand any popped arguments to any bound import.
    pub open spec fn imports_callable(self) -> bool {
        forall|i: int, args: Vec<Calx>|
            0 <= i < self.imports@.len() ==> #[trigger] call_requires(
                self.imports@[i].handler,
                (args,),
            )
    }

    /// The function table and the import table are the same.
    pub open spec fn same_tables(self, post: CalxVM<F>) -> bool {
        &&& post.funcs@ == self.funcs@
        &&& post.imports@ == self.imports@
    }

    /// `e` is the failure record this machine state produces for `kind`.
    pub open spec fn err_of(self, e: CalxError, kind: CalxErrorKind) -> bool {
        &&& e.kind == kind
        &&& e.message@ == crate::err::kind_text(kind)
        &&& e.instrs@.len() == self.code().len()
        &&& forall|i: int| 0 <= i < self.code().len() ==> same_instr(self.code()[i], e.instrs@[i])
        &&& models(e.recent_stack@) == models(self.stack@).skip(window_start(self.stack@.len()))
    }

    /// The step failed with `kind`: the whole state is untouched and the
    /// failure record describes this state.
    pub open spec fn fails(
        self,
        post: CalxVM<F>,
        r: Result<StepOut, CalxError>,
        kind: CalxErrorKind,
    ) -> bool {
        &&& post.frames@ == self.frames@
        &&& post.stack@ == self.stack@
        &&& post.globals@ == self.globals@
        &&& self.same_tables(post)
        &&& r matches Err(e) && self.err_of(e, kind)
    }

    /// All frames below the active one stay as they are.
    pub open spec fn frames_below_kept(self, post: CalxVM<F>) -> bool {
        &&& post.frames@.len() == self.frames@.len()
        &&& forall|i: int|
            0 <= i < self.frames@.len() - 1 ==> #[trigger] post.frames@[i] == self.frames@[i]
    }

    /// The active frame keeps its function, locals and blocks, and its
    /// program counter becomes `p`.
    pub open spec fn top_moved_to(self, post: CalxVM<F>, p: int) -> bool {
        &&& self.frames_below_kept(post)
        &&& post.top().func == self.top().func
        &&& post.top().locals == self.top().locals
        &&& post.top().blocks@ == self.top().blocks@
        &&& post.top().pointer == p
    }

    /// The active frame only advanced its program counter by one; the
    /// global store is kept.
    pub open spec fn advanced(self, post: CalxVM<F>) -> bool {
        &&& self.top_moved_to(post, self.top().pointer + 1)
        &&& post.globals@ == self.globals@
        &&& self.same_tables(post)
    }

    /// The effect of a taken branch by depth `d`, with `s` the stack model
    /// the branch starts from: a loop block restarts its body and stays
    /// open, another block is exited past its extent and closed, inner
    /// blocks close either way, and the operand stack is cut back to the
    /// depth recorded when the target block was entered.
    pub open spec fn branch_to(self, post: CalxVM<F>, d: usize, s: Seq<CalxModel>) -> bool {
        let t = self.top();
        let bs = t.blocks@;
        let tgt = bs[bs.len() - 1 - d];
        &&& self.frames_below_kept(post)
        &&& post.top().func == t.func
        &&& post.top().locals == t.locals
        &&& post.top().pointer == if tgt.looped {
            tgt.from as int
        } else {
            tgt.from + tgt.range
        }
        &&& post.top().blocks@ == if tgt.looped {
            bs.take(bs.len() - d)
        } else {
            bs.take(bs.len() - 1 - d)
        }
        &&& models(post.stack@) == if tgt.initial_stack_size < s.len() {
            s.take(tgt.initial_stack_size as int)
        } else {
            s
        }
        &&& post.globals@ == self.globals@
        &&& self.same_tables(post)
    }

    /// The effect of entering an internal call to `funcs[idx]`: the
    /// declared number of arguments moves off the shared stack into the
    /// locals of a fresh frame, in push order, and the caller's counter
    /// already points past the call.
    pub open spec fn enter_call(self, post: CalxVM<F>, idx: usize) -> bool {
        let n = self.stack@.len();
        let arity = self.funcs@[idx as int].params_type@.len();
        let t = self.top();
        &&& post.frames@.len() == self.frames@.len() + 1
        &&& forall|i: int|
            0 <= i < self.frames@.len() - 1 ==> #[trigger] post.frames@[i] == self.frames@[i]
        &&& post.frames@[self.frames@.len() - 1].func == t.func
        &&& post.frames@[self.frames@.len() - 1].locals == t.locals
        &&& post.frames@[self.frames@.len() - 1].blocks@ == t.blocks@
        &&& post.frames@[self.frames@.len() - 1].pointer == t.pointer + 1
        &&& post.top().func == idx
        &&& post.top().pointer == 0
        &&& post.top().blocks@.len() == 0
        &&& models(post.top().locals@) == models(self.stack@).skip(n - arity)
        &&& models(post.stack@) == models(self.stack@).take(n - arity)
        &&& post.globals@ == self.globals@
        &&& self.same_tables(post)
    }

    /// What one call instruction does: an index into the function table
    /// enters a frame; otherwise the name is looked up among the imports
    /// and the bound callable is invoked on the popped arguments, its
    /// answer pushed or its failure fatal; a name bound nowhere fails.
    /// Arity is checked against the stack before anything is popped.
    pub open spec fn call_rel(
        self,
        post: CalxVM<F>,
        r: Result<StepOut, CalxError>,
        idx: usize,
        name: Seq<char>,
    ) -> bool {
        let n = self.stack@.len();
        if (idx as int) < self.funcs@.len() {
            let arity = self.funcs@[idx as int].params_type@.len();
            if n < arity {
                self.fails(post, r, CalxErrorKind::ArityMismatch(arity as usize, n as usize))
            } else {
                r == Ok::<StepOut, CalxError>(StepOut::Continue) && self.enter_call(post, idx)
            }
        } else {
            match find_import_at(self.imports@, name) {
                Some(j) => {
                    let arity = self.imports@[j].arity;
                    if n < arity {
                        self.fails(post, r, CalxErrorKind::ArityMismatch(arity, n as usize))
                    } else {
                        exists|args: Vec<Calx>, out: Result<Calx, String>|
                            {
                                &&& models(args@) == models(self.stack@).skip(n - arity)
                                &&& call_ensures(self.imports@[j].handler, (args,), out)
                                &&& match out {
                                    Ok(v) => {
                                        &&& r == Ok::<StepOut, CalxError>(StepOut::Continue)
                                        &&& self.advanced(post)
                                        &&& models(post.stack@) == models(self.stack@).take(
                                            n - arity,
                                        ).push(calx_model(v))
                                    },
                                    Err(msg) => {
                                        &&& post.frames@ == self.frames@
                                        &&& models(post.stack@) == models(self.stack@).take(
                                            n - arity,
                                        )
                                        &&& post.globals@ == self.globals@
                                        &&& self.same_tables(post)
                                        &&& r matches Err(e) && e.kind
                                            == CalxErrorKind::ImportFailed(msg)
                                    },
                                }
                            }
                    }
                },
                None => {
                    &&& post.frames@ == self.frames@
                    &&& post.stack@ == self.stack@
                    &&& post.globals@ == self.globals@
                    &&& self.same_tables(post)
                    &&& r matches Err(e) && e.kind matches CalxErrorKind::UnknownImport(nm)
                        && nm@ == name && self.err_of(e, e.kind)
                },
            }
        }
    }

    /// What one step of the dispatch loop does, whatever the current
    /// instruction is.
    pub open spec fn step_rel(self, post: CalxVM<F>, r: Result<StepOut, CalxError>) -> bool {
        let t = self.top();
        let code = self.code();
        let n = self.stack@.len();
        if t.blocks@.len() > 0 && t.pointer >= t.blocks@.last().from + t.blocks@.last().range {
            // the innermost open block's extent is over: it closes, and
            // execution carries on past it
            &&& r == Ok::<StepOut, CalxError>(StepOut::Continue)
            &&& self.frames_below_kept(post)
            &&& post.top().func == t.func
            &&& post.top().locals == t.locals
            &&& post.top().pointer == t.pointer
            &&& post.top().blocks@ == t.blocks@.drop_last()
            &&& post.stack@ == self.stack@
            &&& post.globals@ == self.globals@
            &&& self.same_tables(post)
        } else if t.pointer >= code.len() {
            // the frame's instructions are exhausted: the frame returns;
            // whatever the callee pushed stays for the caller
            &&& r == Ok::<StepOut, CalxError>(
                if self.frames@.len() == 1 {
                    StepOut::Done
                } else {
                    StepOut::Continue
                },
            )
            &&& post.frames@ == self.frames@.drop_last()
            &&& post.stack@ == self.stack@
            &&& post.globals@ == self.globals@
            &&& self.same_tables(post)
        } else {
            let op = code[t.pointer as int];
            if is_stack_op(op) {
                match op_step(op, models(self.stack@)) {
                    Ok(s2) => {
                        &&& r == Ok::<StepOut, CalxError>(StepOut::Continue)
                        &&& models(post.stack@) == s2
                        &&& self.advanced(post)
                    },
                    Err(k) => self.fails(post, r, k),
                }
            } else {
                match op {
                    CalxInstr::Param => {
                        &&& r == Ok::<StepOut, CalxError>(StepOut::Continue)
                        &&& post.stack@ == self.stack@
                        &&& self.advanced(post)
                    },
                    CalxInstr::Nop => {
                        &&& r == Ok::<StepOut, CalxError>(StepOut::Continue)
                        &&& post.stack@ == self.stack@
                        &&& self.advanced(post)
                    },
                    CalxInstr::Local => {
                        &&& r == Ok::<StepOut, CalxError>(StepOut::Continue)
                        &&& post.stack@ == self.stack@
                        &&& self.frames_below_kept(post)
                        &&& post.top().func == t.func
                        &&& post.top().blocks@ == t.blocks@
                        &&& post.top().pointer == t.pointer + 1
                        &&& models(post.top().locals@) == models(t.locals@).push(CalxModel::Nil)
                        &&& post.globals@ == self.globals@
                        &&& self.same_tables(post)
                    },
                    CalxInstr::LocalGet(i) => {
                        if (i as int) < t.locals@.len() {
                            &&& r == Ok::<StepOut, CalxError>(StepOut::Continue)
                            &&& models(post.stack@) == models(self.stack@).push(
                                calx_model(t.locals@[i as int]),
                            )
                            &&& self.advanced(post)
                        } else {
                            self.fails(
                                post,
                                r,
                                CalxErrorKind::IndexOutOfRange(
                                    CalxIndexSpace::Locals,
                                    i,
                                    t.locals@.len() as usize,
                                ),
                            )
                        }
                    },
                    CalxInstr::LocalSet(i) => {
                        if n < 1 {
                            self.fails(post, r, CalxErrorKind::StackUnderflow)
                        } else if t.locals@.len() <= i {
                            self.fails(
                                post,
                                r,
                                CalxErrorKind::IndexOutOfRange(
                                    CalxIndexSpace::Locals,
                                    i,
                                    t.locals@.len() as usize,
                                ),
                            )
                        } else {
                            &&& r == Ok::<StepOut, CalxError>(StepOut::Continue)
                            &&& models(post.stack@) == models(self.stack@).take(n - 1)
                            &&& self.frames_below_kept(post)
                            &&& post.top().func == t.func
                            &&& post.top().blocks@ == t.blocks@
                            &&& post.top().pointer == t.pointer + 1
                            &&& models(post.top().locals@) == models(t.locals@).update(
                                i as int,
                                models(self.stack@).last(),
                            )
                            &&& post.globals@ == self.globals@
                            &&& self.same_tables(post)
                        }
                    },
                    CalxInstr::GlobalGet(i) => {
                        if (i as int) < self.globals@.len() {
                            &&& r == Ok::<StepOut, CalxError>(StepOut::Continue)
                            &&& models(post.stack@) == models(self.stack@).push(
                                calx_model(self.globals@[i as int]),
                            )
                            &&& self.advanced(post)
                        } else {
                            self.fails(
                                post,
                                r,
                                CalxErrorKind::IndexOutOfRange(
                                    CalxIndexSpace::Globals,
                                    i,
                                    self.globals@.len() as usize,
                                ),
                            )
                        }
                    },
                    CalxInstr::GlobalSet(i) => {
                        if n < 1 {
                            self.fails(post, r, CalxErrorKind::StackUnderflow)
                        } else if self.globals@.len() <= i {
                            self.fails(
                                post,
                                r,
                                CalxErrorKind::IndexOutOfRange(
                                    CalxIndexSpace::Globals,
                                    i,
                                    self.globals@.len() as usize,
                                ),
                            )
                        } else {
                            &&& r == Ok::<StepOut, CalxError>(StepOut::Continue)
                            &&& models(post.stack@) == models(self.stack@).take(n - 1)
                            &&& models(post.globals@) == models(self.globals@).update(
                                i as int,
                                models(self.stack@).last(),
                            )
                            &&& self.top_moved_to(post, t.pointer + 1)
                            &&& self.same_tables(post)
                        }
                    },
                    CalxInstr::Br(d) => {
                        if (d as int) >= t.blocks@.len() {
                            self.fails(
                                post,
                                r,
                                CalxErrorKind::BlockDepthExceeded(d, t.blocks@.len() as usize),
                            )
                        } else {
                            &&& r == Ok::<StepOut, CalxError>(StepOut::Continue)
                            &&& self.branch_to(post, d, models(self.stack@))
                        }
                    },
                    CalxInstr::BrIf(d) => {
                        if n < 1 {
                            self.fails(post, r, CalxErrorKind::StackUnderflow)
                        } else {
                            match models(self.stack@).last() {
                                CalxModel::Bool(c) => {
                                    if c && (d as int) >= t.blocks@.len() {
                                        self.fails(
                                            post,
                                            r,
                                            CalxErrorKind::BlockDepthExceeded(
                                                d,
                                                t.blocks@.len() as usize,
                                            ),
                                        )
                                    } else if c {
                                        &&& r == Ok::<StepOut, CalxError>(StepOut::Continue)
                                        &&& self.branch_to(
                                            post,
                                            d,
                                            models(self.stack@).take(n - 1),
                                        )
                                    } else {
                                        &&& r == Ok::<StepOut, CalxError>(StepOut::Continue)
                                        &&& models(post.stack@) == models(self.stack@).take(n - 1)
                                        &&& self.advanced(post)
                                    }
                                },
                                m => self.fails(
                                    post,
                                    r,
                                    CalxErrorKind::TypeMismatch(CalxType::Bool, m.tag()),
                                ),
                            }
                        }
                    },
                    CalxInstr::Block { looped, from, range } => {
                        if from + range > code.len() {
                            self.fails(
                                post,
                                r,
                                CalxErrorKind::IndexOutOfRange(
                                    CalxIndexSpace::Function,
                                    from,
                                    code.len() as usize,
                                ),
                            )
                        } else {
                            &&& r == Ok::<StepOut, CalxError>(StepOut::Continue)
                            &&& post.stack@ == self.stack@
                            &&& self.frames_below_kept(post)
                            &&& post.top().func == t.func
                            &&& post.top().locals == t.locals
                            &&& post.top().pointer == from
                            &&& post.top().blocks@ == t.blocks@.push(
                                CalxBlock {
                                    looped,
                                    from,
                                    range,
                                    initial_stack_size: n as usize,
                                },
                            )
                            &&& post.globals@ == self.globals@
                            &&& self.same_tables(post)
                        }
                    },
                    CalxInstr::Call(idx, nm) => self.call_rel(post, r, idx, nm@),
                    CalxInstr::Unreachable => self.fails(
                        post,
                        r,
                        CalxErrorKind::UnreachableExecuted,
                    ),
                    CalxInstr::Quit => {
                        &&& r == Ok::<StepOut, CalxError>(StepOut::Done)
                        &&& post.frames@.len() == 0
                        &&& post.stack@ == self.stack@
                        &&& post.globals@ == self.globals@
                        &&& self.same_tables(post)
                    },
                    _ => false,
                }
            }
        }
    }

    /// A machine loaded with functions, initial globals and imports; no
    /// frame is active and the operand stack is empty until `run`.
    pub fn new(fns: Vec<CalxFunc>, globals: Vec<Calx>, imports: Vec<CalxImport<F>>) -> (vm: CalxVM<
        F,
    >)
        ensures
            vm.funcs@ == fns@,
            vm.globals@ == globals@,
            vm.imports@ == imports@,
            vm.stack@ == Seq::<Calx>::empty(),
            vm.frames@ == Seq::<CalxFrame>::empty(),
    {
        CalxVM { funcs: fns, globals, stack: Vec::new(), frames: Vec::new(), imports }
    }

    /// The failure record for `kind` in the current state.
    fn make_err(&self, kind: CalxErrorKind) -> (e: CalxError)
        requires
            self.frames@.len() > 0,
            self.wf(),
        ensures
            self.err_of(e, kind),
    {
        proof {
            assert(frame_ok(self.frames@[self.frames@.len() - 1], self.funcs@));
        }
        let tlen = self.frames.len();
        let fi = self.frames[tlen - 1].func;
        CalxError::at(kind, &self.funcs[fi].instrs, &self.stack)
    }

    /// Remove and return the active frame.
    fn take_top(&mut self) -> (fr: CalxFrame)
        requires
            old(self).frames@.len() > 0,
        ensures
            fr == old(self).top(),
            final(self).frames@ == old(self).frames@.drop_last(),
            final(self).stack@ == old(self).stack@,
            final(self).globals@ == old(self).globals@,
            final(self).funcs@ == old(self).funcs@,
            final(self).imports@ == old(self).imports@,
    {
        match self.frames.pop() {
            Some(f) => f,
            None => {
                proof {
                    assert(false);
                }
                CalxFrame { func: 0, locals: Vec::new(), pointer: 0, blocks: Vec::new() }
            },
        }
    }

    /// Replacing the active frame with a well-formed one keeps the machine
    /// well formed.
    pub proof fn lemma_wf_top(pre: CalxVM<F>, post: CalxVM<F>, fr: CalxFrame)
        requires
            pre.wf(),
            pre.frames@.len() > 0,
            post.frames@ == pre.frames@.drop_last().push(fr),
            post.funcs@ == pre.funcs@,
            frame_ok(fr, pre.funcs@),
        ensures
            post.wf(),
    {
        assert forall|i: int|
            0 <= i < post.frames@.len() implies frame_ok(
            #[trigger] post.frames@[i],
            post.funcs@,
        ) by {
            if i < pre.frames@.len() - 1 {
                assert(post.frames@[i] == pre.frames@[i]);
                assert(frame_ok(pre.frames@[i], pre.funcs@));
            } else {
                assert(post.frames@[i] == fr);
            }
        }
    }

    /// A linear scan that stopped at `j` agrees with `find_import_at`.
    pub proof fn lemma_find_import_scan(imps: Seq<CalxImport<F>>, name: Seq<char>, j: int)
        requires
            0 <= j <= imps.len(),
            forall|i: int| 0 <= i < j ==> (#[trigger] imps[i].name@) != name,
            j < imps.len() ==> imps[j].name@ == name,
        ensures
            find_import_at(imps, name) == if j < imps.len() {
                Some(j)
            } else {
                None::<int>
            },
        decreases imps.len(),
    {
        if imps.len() > 0 && j > 0 {
            assert(imps[0].name@ != name);
            assert forall|i: int|
                0 <= i < j - 1 implies (#[trigger] imps.drop_first()[i].name@) != name by {
                assert(imps.drop_first()[i] == imps[i + 1]);
            }
            if j - 1 < imps.drop_first().len() {
                assert(imps.drop_first()[j - 1] == imps[j]);
            }
            Self::lemma_find_import_scan(imps.drop_first(), name, j - 1);
        }
    }

    /// The index of the first import bound to `name`, by linear scan.
    fn find_import(&self, name: &String) -> (r: Option<usize>)
        ensures
            match r {
                Some(j) => find_import_at(self.imports@, name@) == Some(j as int),
                None => find_import_at(self.imports@, name@) is None,
            },
    {
        let mut j: usize = 0;
        while j < self.imports.len()
            invariant
                j <= self.imports@.len(),
                forall|i: int| 0 <= i < j ==> (#[trigger] self.imports@[i].name@) != name@,
            decreases self.imports@.len() - j,
        {
            if self.imports[j].name == *name {
                proof {
                    Self::lemma_find_import_scan(self.imports@, name@, j as int);
                }
                return Some(j);
            }
            j = j + 1;
        }
        proof {
            Self::lemma_find_import_scan(self.imports@, name@, self.imports@.len() as int);
        }
        None
    }

    /// Invoke a host callable on the popped arguments; whatever the host's
    /// contract says of its answer is all that is known of it.
    fn invoke_import(f: &F, args: Vec<Calx>) -> (out: Result<Calx, String>)
        requires
            call_requires(*f, (args,)),
        ensures
            call_ensures(*f, (args,), out),
    {
        f(args)
    }

    /// Make `fr` the active frame.
    fn put_top(&mut self, fr: CalxFrame)
        ensures
            final(self).frames@ == old(self).frames@.push(fr),
            final(self).stack@ == old(self).stack@,
            final(self).globals@ == old(self).globals@,
            final(self).funcs@ == old(self).funcs@,
            final(self).imports@ == old(self).imports@,
    {
        self.frames.push(fr);
    }

    /// Replace the active frame with the same frame moved to counter `p`.
    fn move_top_to(&mut self, p: usize)
        requires
            old(self).frames@.len() > 0,
        ensures
            final(self).frames@ == old(self).frames@.drop_last().push(
                CalxFrame {
                    func: old(self).top().func,
                    locals: old(self).top().locals,
                    pointer: p,
                    blocks: old(self).top().blocks,
                },
            ),
            old(self).top_moved_to(*final(self), p as int),
            final(self).stack@ == old(self).stack@,
            final(self).globals@ == old(self).globals@,
            final(self).funcs@ == old(self).funcs@,
            final(self).imports@ == old(self).imports@,
    {
        let mut fr = self.take_top();
        fr.pointer = p;
        self.put_top(fr);
    }

    /// Execute one step of the dispatch loop: close an expired block,
    /// return from an exhausted frame, or fetch and execute the
    /// instruction at the active counter, exactly as `step_rel` states.
    pub fn step(&mut self) -> (r: Result<StepOut, CalxError>)
        requires
            old(self).wf(),
            old(self).frames@.len() > 0,
            old(self).imports_callable(),
        ensures
            old(self).step_rel(*final(self), r),
            final(self).wf(),
            r == Ok::<StepOut, CalxError>(StepOut::Continue) ==> final(self).frames@.len() > 0,
    {
        proof {
            assert(frame_ok(old(self).frames@[old(self).frames@.len() - 1], old(self).funcs@));
            lemma_models_index(self.stack@);
        }
        let tlen = self.frames.len();
        let fi = self.frames[tlen - 1].func;
        let pointer = self.frames[tlen - 1].pointer;
        let nb = self.frames[tlen - 1].blocks.len();
        let code_len = self.funcs[fi].instrs.len();

        // an open block whose extent is over closes, and execution goes on
        if nb > 0 {
            let b = self.frames[tlen - 1].blocks[nb - 1];
            proof {
                assert(block_ok(
                    old(self).top().blocks@[nb - 1],
                    old(self).funcs@[fi as int].instrs@.len(),
                ));
            }
            if pointer >= b.from + b.range {
                let mut fr = self.take_top();
                let _ = fr.blocks.pop();
                self.put_top(fr);
                proof {
                    Self::lemma_wf_top(*old(self), *self, self.frames@.last());
                }
                return Ok(StepOut::Continue);
            }
        }

        // the frame's instructions are exhausted: the frame returns
        if pointer >= code_len {
            let _ = self.take_top();
            proof {
                assert forall|i: int|
                    0 <= i < self.frames@.len() implies frame_ok(
                    #[trigger] self.frames@[i],
                    self.funcs@,
                ) by {
                    assert(self.frames@[i] == old(self).frames@[i]);
                }
            }
            if self.frames.len() == 0 {
                return Ok(StepOut::Done);
            } else {
                return Ok(StepOut::Continue);
            }
        }

        let op = self.funcs[fi].instrs[pointer].duplicate();
        proof {
            crate::ops::lemma_same_instr_op_step(
                old(self).code()[pointer as int],
                op,
                models(self.stack@),
            );
        }

        match &op {
            CalxInstr::Load(_) | CalxInstr::Dup | CalxInstr::Drop | CalxInstr::IntAdd
                | CalxInstr::IntMul | CalxInstr::IntRem | CalxInstr::IntNeg | CalxInstr::IntShr
                | CalxInstr::IntShl | CalxInstr::Add | CalxInstr::Mul | CalxInstr::Div
                | CalxInstr::Neg | CalxInstr::NewList | CalxInstr::ListGet(_)
                | CalxInstr::ListSet(_) | CalxInstr::NewLink | CalxInstr::And | CalxInstr::Or
                | CalxInstr::Echo => {
                match exec_stack_op(&mut self.stack, &op) {
                    Ok(()) => {
                        self.move_top_to(pointer + 1);
                        proof {
                            Self::lemma_wf_top(*old(self), *self, self.frames@.last());
                        }
                        Ok(StepOut::Continue)
                    },
                    Err(k) => Err(self.make_err(k)),
                }
            },
            CalxInstr::Param | CalxInstr::Nop => {
                self.move_top_to(pointer + 1);
                proof {
                    Self::lemma_wf_top(*old(self), *self, self.frames@.last());
                }
                Ok(StepOut::Continue)
            },
            CalxInstr::Local => {
                let mut fr = self.take_top();
                let ghost locals0 = fr.locals@;
                fr.locals.push(Calx::Nil);
                fr.pointer = pointer + 1;
                self.put_top(fr);
                proof {
                    lemma_models_push(locals0, Calx::Nil);
                    Self::lemma_wf_top(*old(self), *self, self.frames@.last());
                }
                Ok(StepOut::Continue)
            },
            CalxInstr::LocalGet(i) => {
                let i = *i;
                let nl = self.frames[tlen - 1].locals.len();
                if i >= nl {
                    return Err(
                        self.make_err(
                            CalxErrorKind::IndexOutOfRange(CalxIndexSpace::Locals, i, nl),
                        ),
                    );
                }
                let v = self.frames[tlen - 1].locals[i].duplicate();
                let ghost s0 = self.stack@;
                self.stack.push(v);
                self.move_top_to(pointer + 1);
                proof {
                    lemma_models_push(s0, v);
                    Self::lemma_wf_top(*old(self), *self, self.frames@.last());
                }
                Ok(StepOut::Continue)
            },
            CalxInstr::LocalSet(i) => {
                let i = *i;
                if self.stack.len() < 1 {
                    return Err(self.make_err(CalxErrorKind::StackUnderflow));
                }
                let nl = self.frames[tlen - 1].locals.len();
                if i >= nl {
                    return Err(
                        self.make_err(
                            CalxErrorKind::IndexOutOfRange(CalxIndexSpace::Locals, i, nl),
                        ),
                    );
                }
                let v = match self.stack.pop() {
                    Some(v) => v,
                    None => {
                        proof {
                            assert(false);
                        }
                        Calx::Nil
                    },
                };
                let mut fr = self.take_top();
                let ghost locals0 = fr.locals@;
                fr.locals[i] = v;
                fr.pointer = pointer + 1;
                self.put_top(fr);
                proof {
                    lemma_models_update(locals0, i as int, v);
                    lemma_models_index(locals0);
                    lemma_models_take(old(self).stack@, old(self).stack@.len() - 1);
                    assert(old(self).stack@.drop_last() =~= old(self).stack@.take(
                        old(self).stack@.len() - 1,
                    ));
                    Self::lemma_wf_top(*old(self), *self, self.frames@.last());
                }
                Ok(StepOut::Continue)
            },
            CalxInstr::GlobalGet(i) => {
                let i = *i;
                let ng = self.globals.len();
                if i >= ng {
                    return Err(
                        self.make_err(
                            CalxErrorKind::IndexOutOfRange(CalxIndexSpace::Globals, i, ng),
                        ),
                    );
                }
                let v = self.globals[i].duplicate();
                let ghost s0 = self.stack@;
                self.stack.push(v);
                self.move_top_to(pointer + 1);
                proof {
                    lemma_models_push(s0, v);
                    Self::lemma_wf_top(*old(self), *self, self.frames@.last());
                }
                Ok(StepOut::Continue)
            },
            CalxInstr::GlobalSet(i) => {
                let i = *i;
                if self.stack.len() < 1 {
                    return Err(self.make_err(CalxErrorKind::StackUnderflow));
                }
                let ng = self.globals.len();
                if i >= ng {
                    return Err(
                        self.make_err(
                            CalxErrorKind::IndexOutOfRange(CalxIndexSpace::Globals, i, ng),
                        ),
                    );
                }
                let v = match self.stack.pop() {
                    Some(v) => v,
                    None => {
                        proof {
                            assert(false);
                        }
                        Calx::Nil
                    },
                };
                let ghost globals0 = self.globals@;
                self.globals[i] = v;
                self.move_top_to(pointer + 1);
                proof {
                    lemma_models_update(globals0, i as int, v);
                    lemma_models_index(globals0);
                    lemma_models_take(old(self).stack@, old(self).stack@.len() - 1);
                    assert(old(self).stack@.drop_last() =~= old(self).stack@.take(
                        old(self).stack@.len() - 1,
                    ));
                    Self::lemma_wf_top(*old(self), *self, self.frames@.last());
                }
                Ok(StepOut::Continue)
            },
            CalxInstr::Br(d) => {
                let d = *d;
                if d >= nb {
                    return Err(
                        self.make_err(CalxErrorKind::BlockDepthExceeded(d, nb)),
                    );
                }
                self.do_branch(d);
                proof {
                    Self::lemma_wf_top(*old(self), *self, self.frames@.last());
                }
                Ok(StepOut::Continue)
            },
            CalxInstr::BrIf(d) => {
                let d = *d;
                if self.stack.len() < 1 {
                    return Err(self.make_err(CalxErrorKind::StackUnderflow));
                }
                let ns = self.stack.len();
                let c = match &self.stack[ns - 1] {
                    Calx::Bool(c) => *c,
                    other => {
                        let t = other.tag();
                        return Err(
                            self.make_err(CalxErrorKind::TypeMismatch(CalxType::Bool, t)),
                        );
                    },
                };
                if c && d >= nb {
                    return Err(
                        self.make_err(CalxErrorKind::BlockDepthExceeded(d, nb)),
                    );
                }
                let _ = self.stack.pop();
                proof {
                    lemma_models_take(old(self).stack@, old(self).stack@.len() - 1);
                    assert(old(self).stack@.drop_last() =~= old(self).stack@.take(
                        old(self).stack@.len() - 1,
                    ));
                }
                if c {
                    self.do_branch(d);
                    proof {
                        Self::lemma_wf_top(*old(self), *self, self.frames@.last());
                    }
                    Ok(StepOut::Continue)
                } else {
                    self.move_top_to(pointer + 1);
                    proof {
                        Self::lemma_wf_top(*old(self), *self, self.frames@.last());
                    }
                    Ok(StepOut::Continue)
                }
            },
            CalxInstr::Block { looped, from, range } => {
                let looped = *looped;
                let from = *from;
                let range = *range;
                if range > code_len || from > code_len - range {
                    return Err(
                        self.make_err(
                            CalxErrorKind::IndexOutOfRange(
                                CalxIndexSpace::Function,
                                from,
                                code_len,
                            ),
                        ),
                    );
                }
                let depth = self.stack.len();
                let mut fr = self.take_top();
                fr.blocks.push(
                    CalxBlock { looped, from, range, initial_stack_size: depth },
                );
                fr.pointer = from;
                self.put_top(fr);
                proof {
                    Self::lemma_wf_top(*old(self), *self, self.frames@.last());
                }
                Ok(StepOut::Continue)
            },
            CalxInstr::Call(idx, nm) => {
                let idx = *idx;
                if idx < self.funcs.len() {
                    let arity = self.funcs[idx].params_type.len();
                    if self.stack.len() < arity {
                        let have = self.stack.len();
                        return Err(
                            self.make_err(CalxErrorKind::ArityMismatch(arity, have)),
                        );
                    }
                    let start = self.stack.len() - arity;
                    let locals = split_off_tail(&mut self.stack, start);
                    self.move_top_to(pointer + 1);
                    let ghost mid = self.frames@;
                    self.put_top(
                        CalxFrame { func: idx, locals, pointer: 0, blocks: Vec::new() },
                    );
                    proof {
                        assert forall|i: int|
                            0 <= i < self.frames@.len() implies frame_ok(
                            #[trigger] self.frames@[i],
                            self.funcs@,
                        ) by {
                            if i < old(self).frames@.len() - 1 {
                                assert(self.frames@[i] == old(self).frames@[i]);
                                assert(frame_ok(old(self).frames@[i], old(self).funcs@));
                            } else if i == old(self).frames@.len() - 1 {
                                assert(self.frames@[i] == mid.last());
                            } else {
                                assert(self.frames@[i] == self.top());
                            }
                        }
                    }
                    Ok(StepOut::Continue)
                } else {
                    let j = match self.find_import(nm) {
                        Some(j) => j,
                        None => {
                            let name_copy = nm.clone();
                            return Err(
                                self.make_err(CalxErrorKind::UnknownImport(name_copy)),
                            );
                        },
                    };
                    proof {
                        lemma_find_import_at(old(self).imports@, nm@);
                    }
                    let arity = self.imports[j].arity;
                    if self.stack.len() < arity {
                        let have = self.stack.len();
                        return Err(
                            self.make_err(CalxErrorKind::ArityMismatch(arity, have)),
                        );
                    }
                    let start = self.stack.len() - arity;
                    let args = split_off_tail(&mut self.stack, start);
                    let ghost gargs = args;
                    let out = Self::invoke_import(&self.imports[j].handler, args);
                    match out {
                        Ok(v) => {
                            let ghost s1 = self.stack@;
                            self.stack.push(v);
                            self.move_top_to(pointer + 1);
                            proof {
                                lemma_models_push(s1, v);
                                Self::lemma_wf_top(*old(self), *self, self.frames@.last());
                                assert(call_ensures(
                                    old(self).imports@[j as int].handler,
                                    (gargs,),
                                    Ok::<Calx, String>(v),
                                ));
                            }
                            Ok(StepOut::Continue)
                        },
                        Err(msg) => {
                            proof {
                                assert(call_ensures(
                                    old(self).imports@[j as int].handler,
                                    (gargs,),
                                    Err::<Calx, String>(msg),
                                ));
                            }
                            let e = self.make_err(CalxErrorKind::ImportFailed(msg));
                            Err(e)
                        },
                    }
                }
            },
            CalxInstr::Unreachable => Err(self.make_err(CalxErrorKind::UnreachableExecuted)),
            CalxInstr::Quit => {
                self.frames = Vec::new();
                Ok(StepOut::Done)
            },
        }
    }

    /// The machine as it stands when a run begins: one frame entered at
    /// the first loaded function, with no arguments and no open blocks.
    pub open spec fn booted(self, b: CalxVM<F>) -> bool {
        &&& b.frames@.len() == 1
        &&& b.frames@[0].func == 0
        &&& b.frames@[0].locals@.len() == 0
        &&& b.frames@[0].pointer == 0
        &&& b.frames@[0].blocks@.len() == 0
        &&& b.stack@ == self.stack@
        &&& b.globals@ == self.globals@
        &&& self.same_tables(b)
    }

    /// A run under a step budget of `fuel` is a chain of dispatch steps:
    /// from the booted machine, every step relates each state to the next
    /// as `step_rel` states, until one last step finishes the run or fails
    /// it. The budget error is admitted only with the whole budget spent:
    /// a trace of exactly `fuel + 1` states, the machine left at the last.
    pub open spec fn run_trace(
        self,
        tr: Seq<CalxVM<F>>,
        post: CalxVM<F>,
        r: Result<(), CalxError>,
        fuel: int,
    ) -> bool {
        &&& tr.len() >= 1
        &&& self.booted(tr[0])
        &&& forall|i: int|
            0 <= i < tr.len() - 1 ==> tr[i].step_rel(
                #[trigger] tr[i + 1],
                Ok(StepOut::Continue),
            )
        &&& match r {
            Ok(_) => tr.last().step_rel(post, Ok(StepOut::Done)),
            Err(e) => tr.last().step_rel(post, Err(e)) || (e.kind
                == CalxErrorKind::StepLimitReached && post == tr.last() && tr.len() == fuel + 1),
        }
    }

    /// Run the loaded program to completion: enter the first loaded
    /// function with no arguments and dispatch instruction by instruction,
    /// each step as `step_rel` states. On success the operand stack holds
    /// the result values; on failure the machine stops where it failed and
    /// the structured error describes that state. A machine with no loaded
    /// function fails at once.
    pub fn run(&mut self) -> (r: Result<(), CalxError>)
        requires
            old(self).frames@.len() == 0,
            old(self).imports_callable(),
        ensures
            final(self).funcs@ == old(self).funcs@,
            final(self).imports@ == old(self).imports@,
            r is Ok ==> final(self).frames@.len() == 0,
            old(self).funcs@.len() == 0 ==> (r matches Err(e) && e.kind
                == CalxErrorKind::UnknownFunction(0) && final(self).stack@ == old(self).stack@),
            old(self).funcs@.len() > 0 ==> exists|tr: Seq<CalxVM<F>>|
                old(self).run_trace(tr, *final(self), r, usize::MAX as int),
    {
        self.run_with_fuel(usize::MAX)
    }

    /// Run the loaded program as `run` does, executing at most `fuel`
    /// steps; a program still going when the budget is spent stops with a
    /// budget error.
    pub fn run_with_fuel(&mut self, fuel: usize) -> (r: Result<(), CalxError>)
        requires
            old(self).frames@.len() == 0,
            old(self).imports_callable(),
        ensures
            final(self).funcs@ == old(self).funcs@,
            final(self).imports@ == old(self).imports@,
            r is Ok ==> final(self).frames@.len() == 0,
            old(self).funcs@.len() == 0 ==> (r matches Err(e) && e.kind
                == CalxErrorKind::UnknownFunction(0) && final(self).stack@ == old(self).stack@),
            old(self).funcs@.len() > 0 ==> exists|tr: Seq<CalxVM<F>>|
                old(self).run_trace(tr, *final(self), r, fuel as int),
    {
        if self.funcs.len() == 0 {
            let empty: Vec<CalxInstr> = Vec::new();
            return Err(CalxError::at(CalxErrorKind::UnknownFunction(0), &empty, &self.stack));
        }
        self.put_top(CalxFrame { func: 0, locals: Vec::new(), pointer: 0, blocks: Vec::new() });
        let ghost mut tr = Seq::<CalxVM<F>>::empty().push(*self);
        let mut left = fuel;
        loop
            invariant
                self.wf(),
                self.frames@.len() > 0,
                self.imports_callable(),
                self.funcs@ == old(self).funcs@,
                self.imports@ == old(self).imports@,
                left <= fuel,
                tr.len() == 1 + fuel - left,
                old(self).booted(tr[0]),
                tr.last() == *self,
                forall|i: int|
                    0 <= i < tr.len() - 1 ==> tr[i].step_rel(
                        #[trigger] tr[i + 1],
                        Ok(StepOut::Continue),
                    ),
            decreases left,
        {
            if left == 0 {
                let e = self.make_err(CalxErrorKind::StepLimitReached);
                proof {
                    assert(tr.len() == fuel + 1);
                    assert(old(self).run_trace(tr, *self, Err(e), fuel as int));
                }
                return Err(e);
            }
            left = left - 1;
            let ghost before = *self;
            match self.step() {
                Ok(StepOut::Continue) => {
                    proof {
                        tr = tr.push(*self);
                        assert(tr.last() == *self);
                        assert forall|i: int|
                            0 <= i < tr.len() - 1 implies tr[i].step_rel(
                            #[trigger] tr[i + 1],
                            Ok(StepOut::Continue),
                        ) by {
                            if i == tr.len() - 2 {
                                assert(tr[i] == before);
                                assert(tr[i + 1] == *self);
                            }
                        }
                    }
                },
                Ok(StepOut::Done) => {
                    proof {
                        assert(old(self).run_trace(tr, *self, Ok(()), fuel as int));
                    }
                    return Ok(());
                },
                Err(e) => {
                    proof {
                        assert(old(self).run_trace(tr, *self, Err(e), fuel as int));
                    }
                    return Err(e);
                },
            }
        }
    }

    /// A dispatched operand-stack instruction changes the operand-stack
    /// depth by exactly its static stack effect.
    pub proof fn lemma_step_stack_effect(pre: CalxVM<F>, post: CalxVM<F>)
        requires
            pre.frames@.len() > 0,
            pre.top().blocks@.len() > 0 ==> pre.top().pointer < pre.top().blocks@.last().from
                + pre.top().blocks@.last().range,
            pre.top().pointer < pre.code().len(),
            is_stack_op(pre.code()[pre.top().pointer as int]),
            pre.step_rel(post, Ok(StepOut::Continue)),
        ensures
            models(post.stack@).len() == models(pre.stack@).len() - crate::ops::op_pops(
                pre.code()[pre.top().pointer as int],
            ) + crate::ops::op_pushes(pre.code()[pre.top().pointer as int]),
    {
        crate::ops::lemma_op_static_effect(
            pre.code()[pre.top().pointer as int],
            models(pre.stack@),
        );
    }

    /// A dispatched operand-stack instruction that would drive the depth
    /// negative fails with an underflow before any effect is applied: the
    /// whole machine state is untouched.
    pub proof fn lemma_step_underflow(
        pre: CalxVM<F>,
        post: CalxVM<F>,
        r: Result<StepOut, CalxError>,
    )
        requires
            pre.frames@.len() > 0,
            pre.top().blocks@.len() > 0 ==> pre.top().pointer < pre.top().blocks@.last().from
                + pre.top().blocks@.last().range,
            pre.top().pointer < pre.code().len(),
            is_stack_op(pre.code()[pre.top().pointer as int]),
            models(pre.stack@).len() < crate::ops::op_pops(pre.code()[pre.top().pointer as int]),
            pre.step_rel(post, r),
        ensures
            pre.fails(post, r, CalxErrorKind::StackUnderflow),
    {
        crate::ops::lemma_op_static_effect(
            pre.code()[pre.top().pointer as int],
            models(pre.stack@),
        );
    }

    /// Take a branch by depth `d` out of the active frame's open blocks.
    fn do_branch(&mut self, d: usize)
        requires
            old(self).wf(),
            old(self).frames@.len() > 0,
            (d as int) < old(self).top().blocks@.len(),
        ensures
            old(self).branch_to(*final(self), d, models(old(self).stack@)),
            final(self).frames@.len() == old(self).frames@.len(),
            final(self).frames@ == old(self).frames@.drop_last().push(final(self).top()),
            frame_ok(final(self).top(), old(self).funcs@),
            final(self).funcs@ == old(self).funcs@,
            final(self).imports@ == old(self).imports@,
    {
        proof {
            assert(frame_ok(old(self).frames@[old(self).frames@.len() - 1], old(self).funcs@));
            lemma_models_index(self.stack@);
        }
        let nb = self.frames[self.frames.len() - 1].blocks.len();
        let tgt = self.frames[self.frames.len() - 1].blocks[nb - 1 - d];
        let fx = self.frames[self.frames.len() - 1].func;
        let code_len = self.funcs[fx].instrs.len();
        proof {
            assert(block_ok(
                old(self).top().blocks@[nb - 1 - d],
                old(self).funcs@[old(self).top().func as int].instrs@.len(),
            ));
        }
        let mut fr = self.take_top();
        if tgt.looped {
            fr.blocks.truncate(nb - d);
            fr.pointer = tgt.from;
        } else {
            fr.blocks.truncate(nb - 1 - d);
            fr.pointer = tgt.from + tgt.range;
        }
        self.put_top(fr);
        if tgt.initial_stack_size < self.stack.len() {
            let ghost s0 = self.stack@;
            self.stack.truncate(tgt.initial_stack_size);
            proof {
                lemma_models_take(s0, tgt.initial_stack_size as int);
            }
        }
        proof {
            assert forall|i: int|
                0 <= i < self.top().blocks@.len() implies block_ok(
                #[trigger] self.top().blocks@[i],
                old(self).funcs@[old(self).top().func as int].instrs@.len(),
            ) by {
                assert(self.top().blocks@[i] == old(self).top().blocks@[i]);
                assert(block_ok(
                    old(self).top().blocks@[i],
                    old(self).funcs@[old(self).top().func as int].instrs@.len(),
                ));
            }
        }
    }
}

} // verus!
