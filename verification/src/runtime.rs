//! The execution engine: an operand stack, a call-frame stack held as an
//! explicit owned sequence, and an instruction dispatch loop. The machine
//! is stated first as a small-step mathematical transition function; the
//! executable loop is proved to follow it step for step wherever the
//! model determines the outcome. A step through the host bridge (an
//! import call, a linear-memory write) is external: past it the model
//! promises nothing, and the loop carries on with whatever the host
//! returned.

use crate::error::RuntimeError;
use crate::instruction::{Instruction, MemArg};
use crate::store::{FuncInst, FuncInstV, Store};
use crate::types::{Export, ExportDesc, ExportV, FuncTypeV, ValueType};
use crate::value::Value;
use vstd::prelude::*;

verus! {

/// The host import bridge: the seam where a WASI-style layer or any
/// other host capability is plugged in. The engine treats every import
/// identically and depends on no concrete behaviour of an implementor.
pub trait ImportResolver {
    /// Invokes the host function registered under the (module name,
    /// field name) pair with the popped arguments; returns the import's
    /// optional single result, or the host's own failure.
    fn call_import(
        &mut self,
        store: &mut Store,
        module_name: &String,
        field_name: &String,
        args: Vec<Value>,
    ) -> Result<Option<Value>, RuntimeError>;

    /// Writes a 32-bit value through the host's linear-memory
    /// abstraction at `addr + memarg.offset`.
    fn write_memory(
        &mut self,
        store: &mut Store,
        addr: i32,
        value: i32,
        memarg: MemArg,
    ) -> Result<(), RuntimeError>;
}

/// One in-flight call: the callee's local slots (parameters first, then
/// declared locals), a program counter into its body, and the declared
/// result type the terminating `End` must satisfy.
#[derive(Debug, Clone, PartialEq, Eq)]
pub struct Frame {
    pub locals: Vec<Value>,
    pub pc: usize,
    pub body: Vec<Instruction>,
    pub result_type: Option<ValueType>,
}

/// The mathematical model of a [`Frame`].
#[verifier::ext_equal]
pub ghost struct FrameV {
    pub locals: Seq<Value>,
    pub pc: int,
    pub body: Seq<Instruction>,
    pub result_type: Option<ValueType>,
}

impl View for Frame {
    type V = FrameV;

    open spec fn view(&self) -> FrameV {
        FrameV {
            locals: self.locals@,
            pc: self.pc as int,
            body: self.body@,
            result_type: self.result_type,
        }
    }
}

/// The models of a list of frames, bottom of the call stack first.
pub open spec fn frames_view(v: Seq<Frame>) -> Seq<FrameV> {
    v.map_values(|f: Frame| f@)
}

/// The whole machine state: the call-frame stack (innermost call last)
/// and the shared operand stack.
#[verifier::ext_equal]
pub ghost struct StateV {
    pub frames: Seq<FrameV>,
    pub stack: Seq<Value>,
}

/// What one machine step yields: the next state, the final result of the
/// outermost call, a fatal error, or an external step through the host
/// bridge, whose outcome the model does not determine.
pub ghost enum StepV {
    Next(StateV),
    Done(Option<Value>),
    Trap(RuntimeError),
    External,
}

/// The zero-initialized values of a list of declared local types.
pub open spec fn spec_zeros(ts: Seq<ValueType>) -> Seq<Value> {
    ts.map_values(|t: ValueType| Value::spec_zero_of(t))
}

/// The result type a signature declares: one declared result, or none.
/// (Two or more results are outside this scope and trap at the call.)
pub open spec fn spec_result_type(ft: FuncTypeV) -> Option<ValueType> {
    if ft.results.len() == 1 {
        Some(ft.results[0])
    } else {
        None
    }
}

/// The frame a call to an internal function enters: arguments bound to
/// the first local slots in declaration order, declared locals
/// zero-initialized after them, and the program counter at the start of
/// the body.
pub open spec fn spec_new_frame(func_type: FuncTypeV, locals: Seq<ValueType>, body: Seq<
    Instruction,
>, args: Seq<Value>) -> FrameV {
    FrameV {
        locals: args + spec_zeros(locals),
        pc: 0,
        body,
        result_type: spec_result_type(func_type),
    }
}

/// One step of the machine: dispatch on the current frame's instruction
/// at its program counter, exactly as the instruction table prescribes.
pub open spec fn spec_step(funcs: Seq<FuncInstV>, st: StateV) -> StepV {
    if st.frames.len() == 0 {
        StepV::Trap(RuntimeError::StackUnderflow)
    } else {
        let fr = st.frames.last();
        if !(0 <= fr.pc < fr.body.len()) {
            StepV::Trap(RuntimeError::OutOfRange)
        } else {
            match fr.body[fr.pc] {
                Instruction::End => {
                    let rest = st.frames.drop_last();
                    match fr.result_type {
                        Some(t) => {
                            if st.stack.len() == 0 {
                                StepV::Trap(RuntimeError::StackUnderflow)
                            } else if st.stack.last().spec_ty() != t {
                                StepV::Trap(RuntimeError::TypeMismatch)
                            } else if rest.len() == 0 {
                                StepV::Done(Some(st.stack.last()))
                            } else {
                                StepV::Next(StateV { frames: rest, stack: st.stack })
                            }
                        },
                        None => {
                            if rest.len() == 0 {
                                StepV::Done(None)
                            } else {
                                StepV::Next(StateV { frames: rest, stack: st.stack })
                            }
                        },
                    }
                },
                Instruction::LocalGet(i) => {
                    if i >= fr.locals.len() {
                        StepV::Trap(RuntimeError::OutOfRange)
                    } else {
                        let fr2 = FrameV { pc: fr.pc + 1, ..fr };
                        StepV::Next(
                            StateV {
                                frames: st.frames.drop_last().push(fr2),
                                stack: st.stack.push(fr.locals[i as int]),
                            },
                        )
                    }
                },
                Instruction::LocalSet(i) => {
                    if st.stack.len() == 0 {
                        StepV::Trap(RuntimeError::StackUnderflow)
                    } else if i >= fr.locals.len() {
                        StepV::Trap(RuntimeError::OutOfRange)
                    } else if st.stack.last().spec_ty() != fr.locals[i as int].spec_ty() {
                        StepV::Trap(RuntimeError::TypeMismatch)
                    } else {
                        let fr2 = FrameV {
                            pc: fr.pc + 1,
                            locals: fr.locals.update(i as int, st.stack.last()),
                            ..fr
                        };
                        StepV::Next(
                            StateV {
                                frames: st.frames.drop_last().push(fr2),
                                stack: st.stack.drop_last(),
                            },
                        )
                    }
                },
                Instruction::I32Const(v) => {
                    let fr2 = FrameV { pc: fr.pc + 1, ..fr };
                    StepV::Next(
                        StateV {
                            frames: st.frames.drop_last().push(fr2),
                            stack: st.stack.push(Value::I32(v)),
                        },
                    )
                },
                Instruction::I32Add => {
                    if st.stack.len() < 2 {
                        StepV::Trap(RuntimeError::StackUnderflow)
                    } else {
                        let b = st.stack.last();
                        let a = st.stack[st.stack.len() - 2];
                        match Value::spec_add(a, b) {
                            Ok(v) => {
                                let fr2 = FrameV { pc: fr.pc + 1, ..fr };
                                StepV::Next(
                                    StateV {
                                        frames: st.frames.drop_last().push(fr2),
                                        stack: st.stack.take(st.stack.len() - 2).push(v),
                                    },
                                )
                            },
                            Err(e) => StepV::Trap(e),
                        }
                    }
                },
                Instruction::I32Store(_) => StepV::External,
                Instruction::Call(i) => {
                    if i >= funcs.len() {
                        StepV::Trap(RuntimeError::OutOfRange)
                    } else {
                        match funcs[i as int] {
                            FuncInstV::External { .. } => StepV::External,
                            FuncInstV::Internal { func_type, locals, body } => {
                                let n = func_type.params.len();
                                if st.stack.len() < n {
                                    StepV::Trap(RuntimeError::StackUnderflow)
                                } else {
                                    let args = st.stack.subrange(
                                        st.stack.len() - n,
                                        st.stack.len() as int,
                                    );
                                    if exists|k: int|
                                        0 <= k < n && args[k].spec_ty() != func_type.params[k] {
                                        StepV::Trap(RuntimeError::TypeMismatch)
                                    } else if func_type.results.len() > 1 {
                                        StepV::Trap(RuntimeError::TypeMismatch)
                                    } else {
                                        let caller = FrameV { pc: fr.pc + 1, ..fr };
                                        let callee = spec_new_frame(func_type, locals, body, args);
                                        StepV::Next(
                                            StateV {
                                                frames: st.frames.drop_last().push(caller).push(
                                                    callee,
                                                ),
                                                stack: st.stack.take(st.stack.len() - n),
                                            },
                                        )
                                    }
                                }
                            },
                        }
                    }
                },
            }
        }
    }
}

/// What running the machine for at most `fuel` steps yields. `More`
/// means the fuel ran out first; `External` that the run reached a step
/// through the host bridge, past which the model promises nothing.
pub ghost enum RunV {
    Done(Option<Value>),
    Trap(RuntimeError),
    External,
    More,
}

/// Iterates [`spec_step`] up to `fuel` times.
pub open spec fn spec_run(funcs: Seq<FuncInstV>, st: StateV, fuel: nat) -> RunV
    decreases fuel,
{
    if fuel == 0 {
        RunV::More
    } else {
        match spec_step(funcs, st) {
            StepV::Next(st2) => spec_run(funcs, st2, (fuel - 1) as nat),
            StepV::Done(v) => RunV::Done(v),
            StepV::Trap(e) => RunV::Trap(e),
            StepV::External => RunV::External,
        }
    }
}

/// Once the run has settled (anything but `More`), more fuel does not
/// change it.
pub proof fn lemma_run_settled(funcs: Seq<FuncInstV>, st: StateV, n: nat, m: nat)
    requires
        n <= m,
        !(spec_run(funcs, st, n) is More),
    ensures
        spec_run(funcs, st, m) == spec_run(funcs, st, n),
    decreases n,
{
    if n > 0 {
        match spec_step(funcs, st) {
            StepV::Next(st2) => {
                lemma_run_settled(funcs, st2, (n - 1) as nat, (m - 1) as nat);
            },
            _ => {},
        }
    }
}

/// With less fuel than an unsettled run, the run is still unsettled.
pub proof fn lemma_run_more(funcs: Seq<FuncInstV>, st: StateV, n: nat, m: nat)
    requires
        m <= n,
        spec_run(funcs, st, n) is More,
    ensures
        spec_run(funcs, st, m) is More,
    decreases m,
{
    if m > 0 {
        match spec_step(funcs, st) {
            StepV::Next(st2) => {
                lemma_run_more(funcs, st2, (n - 1) as nat, (m - 1) as nat);
            },
            _ => {},
        }
    }
}

/// What the executable step hands back to the dispatch loop.
pub enum StepOutcome {
    /// The machine moved to the next state.
    Continue,
    /// The outermost frame returned; the call's result.
    Finished(Option<Value>),
    /// The current instruction calls the import at this function index.
    ImportCall(u32),
    /// The current instruction writes linear memory through the host.
    MemWrite(MemArg),
}

/// The machine state the executable loop's pieces model.
pub open spec fn state_of(callers: Seq<Frame>, cur: FrameV, stack: Seq<Value>) -> StateV {
    StateV { frames: frames_view(callers).push(cur), stack }
}

/// Pops the top `n` operands, returning them in declaration order (the
/// value popped last comes first). `StackUnderflow` exactly when fewer
/// than `n` operands are present, and then the stack is unchanged.
pub fn pop_args(stack: &mut Vec<Value>, n: usize) -> (r: Result<Vec<Value>, RuntimeError>)
    ensures
        match r {
            Ok(args) => old(stack)@.len() >= n && args@ == old(stack)@.subrange(
                old(stack)@.len() - n,
                old(stack)@.len() as int,
            ) && final(stack)@ == old(stack)@.take(old(stack)@.len() - n),
            Err(e) => old(stack)@.len() < n && e == RuntimeError::StackUnderflow && final(stack)@
                == old(stack)@,
        },
{
    if stack.len() < n {
        return Err(RuntimeError::StackUnderflow);
    }
    let base = stack.len() - n;
    let mut args: Vec<Value> = Vec::new();
    let mut i: usize = 0;
    while i < n
        invariant
            base + n == old(stack)@.len(),
            old(stack)@.len() <= usize::MAX,
            stack@ == old(stack)@,
            i <= n,
            args@ == old(stack)@.subrange(base as int, base as int + i as int),
        decreases n - i,
    {
        args.push(stack[base + i]);
        proof {
            assert(args@ =~= old(stack)@.subrange(base as int, base as int + i as int + 1));
        }
        i = i + 1;
    }
    stack.truncate(base);
    proof {
        assert(old(stack)@.subrange(0, base as int) =~= old(stack)@.take(base as int));
    }
    Ok(args)
}

/// Pushes an import's returned value, if it returned one; pushes nothing
/// otherwise.
pub fn push_result(stack: &mut Vec<Value>, result: Option<Value>)
    ensures
        match result {
            Some(v) => final(stack)@ == old(stack)@.push(v),
            None => final(stack)@ == old(stack)@,
        },
{
    match result {
        Some(v) => {
            stack.push(v);
        },
        None => {},
    }
}

/// A host call forwards the popped operands unchanged and pushes back
/// exactly what the import returned: the stack decomposes into a base
/// and the top `n` arguments in declaration order, and the stack after
/// the call is that base extended by the returned value, if any.
pub proof fn lemma_import_forwarding(stack: Seq<Value>, n: nat, result: Option<Value>)
    requires
        n <= stack.len(),
    ensures
        ({
            let base = stack.take(stack.len() - n);
            let args = stack.subrange(stack.len() - n, stack.len() as int);
            &&& base + args =~= stack
            &&& args.len() == n
            &&& match result {
                Some(v) => base.push(v).drop_last() =~= base && base.push(v).last() == v,
                None => true,
            }
        }),
{
}


/// Performs one machine step on the executable state. Wherever the
/// mathematical step function determines the outcome, this returns
/// exactly it; a step through the host bridge is reported back to the
/// dispatch loop untouched.
pub fn step(store: &Store, callers: &mut Vec<Frame>, cur: &mut Frame, stack: &mut Vec<Value>) -> (r:
    Result<StepOutcome, RuntimeError>)
    ensures
        ({
            let pre = state_of(old(callers)@, old(cur)@, old(stack)@);
            let post = state_of(final(callers)@, final(cur)@, final(stack)@);
            match r {
                Ok(StepOutcome::Continue) => spec_step(store@, pre) == StepV::Next(post),
                Ok(StepOutcome::Finished(v)) => spec_step(store@, pre) == StepV::Done(v),
                Ok(StepOutcome::ImportCall(idx)) => spec_step(store@, pre) == StepV::External
                    && post == pre && idx < store@.len() && store@[idx as int] is External,
                Ok(StepOutcome::MemWrite(_)) => spec_step(store@, pre) == StepV::External && post
                    == pre,
                Err(e) => spec_step(store@, pre) == StepV::Trap(e),
            }
        }),
{
    let ghost pre = state_of(callers@, cur@, stack@);
    proof {
        assert(pre.frames.last() == cur@);
        assert(pre.frames.drop_last() =~= frames_view(callers@));
    }
    let pc = cur.pc;
    if pc >= cur.body.len() {
        return Err(RuntimeError::OutOfRange);
    }
    let instr = cur.body[pc];
    match instr {
        Instruction::End => {
            match cur.result_type {
                Some(t) => {
                    if stack.len() == 0 {
                        return Err(RuntimeError::StackUnderflow);
                    }
                    let top = stack[stack.len() - 1];
                    if top.ty() != t {
                        return Err(RuntimeError::TypeMismatch);
                    }
                    match callers.pop() {
                        Some(f) => {
                            *cur = f;
                            proof {
                                assert(state_of(callers@, cur@, stack@).frames =~= pre
                                    .frames
                                    .drop_last());
                            }
                            Ok(StepOutcome::Continue)
                        },
                        None => Ok(StepOutcome::Finished(Some(top))),
                    }
                },
                None => {
                    match callers.pop() {
                        Some(f) => {
                            *cur = f;
                            proof {
                                assert(state_of(callers@, cur@, stack@).frames =~= pre
                                    .frames
                                    .drop_last());
                            }
                            Ok(StepOutcome::Continue)
                        },
                        None => Ok(StepOutcome::Finished(None)),
                    }
                },
            }
        },
        Instruction::LocalGet(i) => {
            if (i as usize) >= cur.locals.len() {
                return Err(RuntimeError::OutOfRange);
            }
            let v = cur.locals[i as usize];
            stack.push(v);
            cur.pc = pc + 1;
            proof {
                assert(state_of(callers@, cur@, stack@).frames =~= pre.frames.drop_last().push(
                    (FrameV { pc: pre.frames.last().pc + 1, ..pre.frames.last() }),
                ));
            }
            Ok(StepOutcome::Continue)
        },
        Instruction::LocalSet(i) => {
            let v = match stack.pop() {
                Some(v) => v,
                None => {
                    return Err(RuntimeError::StackUnderflow);
                },
            };
            if (i as usize) >= cur.locals.len() {
                return Err(RuntimeError::OutOfRange);
            }
            if v.ty() != cur.locals[i as usize].ty() {
                return Err(RuntimeError::TypeMismatch);
            }
            cur.locals[i as usize] = v;
            cur.pc = pc + 1;
            proof {
                assert(stack@ =~= pre.stack.drop_last());
                assert(state_of(callers@, cur@, stack@).frames =~= pre.frames.drop_last().push(
                    (FrameV {
                        pc: pre.frames.last().pc + 1,
                        locals: pre.frames.last().locals.update(i as int, pre.stack.last()),
                        ..pre.frames.last()
                    }),
                ));
            }
            Ok(StepOutcome::Continue)
        },
        Instruction::I32Const(v) => {
            stack.push(Value::I32(v));
            cur.pc = pc + 1;
            proof {
                assert(state_of(callers@, cur@, stack@).frames =~= pre.frames.drop_last().push(
                    (FrameV { pc: pre.frames.last().pc + 1, ..pre.frames.last() }),
                ));
            }
            Ok(StepOutcome::Continue)
        },
        Instruction::I32Add => {
            if stack.len() < 2 {
                return Err(RuntimeError::StackUnderflow);
            }
            let b = stack[stack.len() - 1];
            let a = stack[stack.len() - 2];
            match a.add(b) {
                Ok(v) => {
                    let base = stack.len() - 2;
                    stack.truncate(base);
                    stack.push(v);
                    cur.pc = pc + 1;
                    proof {
                        assert(pre.stack.subrange(0, pre.stack.len() - 2) =~= pre.stack.take(
                            pre.stack.len() - 2,
                        ));
                        assert(state_of(callers@, cur@, stack@).frames =~= pre
                            .frames
                            .drop_last()
                            .push((FrameV { pc: pre.frames.last().pc + 1, ..pre.frames.last() })));
                    }
                    Ok(StepOutcome::Continue)
                },
                Err(e) => Err(e),
            }
        },
        Instruction::I32Store(memarg) => Ok(StepOutcome::MemWrite(memarg)),
        Instruction::Call(i) => {
            let f = match store.get_func(i) {
                Ok(f) => f,
                Err(e) => {
                    return Err(e);
                },
            };
            match f {
                FuncInst::External { .. } => Ok(StepOutcome::ImportCall(i)),
                FuncInst::Internal { func_type, locals: decl_locals, body } => {
                    let n = func_type.params.len();
                    if stack.len() < n {
                        return Err(RuntimeError::StackUnderflow);
                    }
                    let base = stack.len() - n;
                    let ghost ftv = func_type@;
                    let ghost argsv = pre.stack.subrange(
                        pre.stack.len() - n,
                        pre.stack.len() as int,
                    );
                    let mut k: usize = 0;
                    let mut mismatch: bool = false;
                    while k < n && !mismatch
                        invariant
                            k <= n,
                            n <= stack@.len(),
                            base + n == stack@.len(),
                            stack@.len() <= usize::MAX,
                            n == func_type@.params.len(),
                            argsv == stack@.subrange(base as int, stack@.len() as int),
                            forall|q: int|
                                0 <= q < k ==> argsv[q].spec_ty() == func_type@.params[q],
                            mismatch ==> k < n && argsv[k as int].spec_ty() != func_type@.params[
                                k as int
                            ],
                        decreases n + 1 - k - (if mismatch { 1int } else { 0int }),
                    {
                        if stack[base + k].ty() != func_type.params[k] {
                            proof {
                                assert(argsv[k as int] == stack@[base as int + k as int]);
                            }
                            mismatch = true;
                        } else {
                            k = k + 1;
                        }
                    }
                    if mismatch {
                        return Err(RuntimeError::TypeMismatch);
                    }
                    if func_type.results.len() > 1 {
                        return Err(RuntimeError::TypeMismatch);
                    }
                    let result_type: Option<ValueType> = if func_type.results.len() == 1 {
                        Some(func_type.results[0])
                    } else {
                        None
                    };
                    let args = match pop_args(stack, n) {
                        Ok(a) => a,
                        Err(_) => {
                            return Err(RuntimeError::StackUnderflow);
                        },
                    };
                    let mut new_locals = args;
                    let ghost args0 = new_locals@;
                    let mut q: usize = 0;
                    proof {
                        assert(spec_zeros(decl_locals@.take(0)) =~= Seq::<Value>::empty());
                        assert(new_locals@ =~= args0 + spec_zeros(decl_locals@.take(0)));
                    }
                    while q < decl_locals.len()
                        invariant
                            q <= decl_locals@.len(),
                            new_locals@ == args0 + spec_zeros(decl_locals@.take(q as int)),
                        decreases decl_locals@.len() - q,
                    {
                        new_locals.push(Value::zero_of(decl_locals[q]));
                        proof {
                            assert(spec_zeros(decl_locals@.take(q as int + 1)) =~= spec_zeros(
                                decl_locals@.take(q as int),
                            ).push(Value::spec_zero_of(decl_locals@[q as int])));
                            assert(new_locals@ =~= args0 + spec_zeros(
                                decl_locals@.take(q as int + 1),
                            ));
                        }
                        q = q + 1;
                    }
                    proof {
                        assert(decl_locals@.take(decl_locals@.len() as int) =~= decl_locals@);
                    }
                    let new_body = crate::store::copy_instructions(body);
                    let mut entering = Frame {
                        locals: new_locals,
                        pc: 0,
                        body: new_body,
                        result_type,
                    };
                    cur.pc = pc + 1;
                    core::mem::swap(cur, &mut entering);
                    callers.push(entering);
                    proof {
                        let caller = FrameV { pc: pre.frames.last().pc + 1, ..pre.frames.last() };
                        let callee = spec_new_frame(ftv, decl_locals@, body@, argsv);
                        assert(cur@ =~= callee);
                        assert(state_of(callers@, cur@, stack@).frames =~= pre
                            .frames
                            .drop_last()
                            .push(caller)
                            .push(callee));
                    }
                    Ok(StepOutcome::Continue)
                },
            }
        },
    }
}


/// The machine state a fresh outermost call starts from.
pub open spec fn run_init(cur: FrameV, stack: Seq<Value>) -> StateV {
    StateV { frames: seq![cur], stack }
}

/// The dispatch loop's step budget. Synchronous recursion through `Call`
/// is bounded only by resources, so a run past this many steps fails as
/// an exhausted call stack would.
pub const MAX_STEPS: u64 = 0xffff_ffff_ffff_ffff;

/// Drives the machine from the given frame and operand stack until the
/// outermost call returns or fails. Wherever the mathematical run
/// settles on a result without passing through the host bridge, this
/// returns exactly that result; a run that reaches the bridge continues
/// with whatever the host returned, and nothing more is promised of it.
pub fn run<R: ImportResolver>(
    store: &mut Store,
    resolver: &mut R,
    cur: &mut Frame,
    stack: &mut Vec<Value>,
) -> (r: Result<Option<Value>, RuntimeError>)
    ensures
        ({
            let funcs = old(store)@;
            let init = run_init(old(cur)@, old(stack)@);
            match r {
                Ok(v) => forall|n: nat|
                    (#[trigger] spec_run(funcs, init, n)) matches RunV::Done(w) ==> w == v,
                Err(_) => forall|n: nat|
                    n <= MAX_STEPS ==> !((#[trigger] spec_run(funcs, init, n)) is Done),
            }
        }),
{
    let ghost funcs = old(store)@;
    let ghost init = run_init(old(cur)@, old(stack)@);
    let mut callers: Vec<Frame> = Vec::new();
    proof {
        assert(frames_view(callers@) =~= Seq::<FrameV>::empty());
        assert(state_of(callers@, cur@, stack@) =~= init);
    }
    let ghost mut steps: nat = 0;
    let ghost mut diverged = false;
    let mut budget: u64 = MAX_STEPS;
    while budget > 0
        invariant
            funcs == old(store)@,
            init == run_init(old(cur)@, old(stack)@),
            !diverged ==> store@ == funcs,
            !diverged ==> steps + budget == MAX_STEPS,
            !diverged ==> (forall|n: nat|
                spec_run(funcs, init, n + steps) == #[trigger] spec_run(
                    funcs,
                    state_of(callers@, cur@, stack@),
                    n,
                )),
            diverged ==> (forall|n: nat|
                ((#[trigger] spec_run(funcs, init, n)) is More) || (spec_run(funcs, init, n)
                    is External)),
        decreases budget,
    {
        budget = budget - 1;
        let ghost pre = state_of(callers@, cur@, stack@);
        let outcome = step(store, &mut callers, cur, stack);
        match outcome {
            Err(e) => {
                proof {
                    if !diverged {
                        assert forall|n: nat| !((#[trigger] spec_run(funcs, init, n)) is Done) by {
                            if n <= steps {
                                assert(spec_run(funcs, init, 0 + steps) == spec_run(
                                    funcs,
                                    pre,
                                    0,
                                ));
                                lemma_run_more(funcs, init, steps, n);
                            } else {
                                let m = (n - steps) as nat;
                                assert(spec_run(funcs, init, m + steps) == spec_run(
                                    funcs,
                                    pre,
                                    m,
                                ));
                                assert(spec_run(funcs, pre, m) == RunV::Trap(e));
                            }
                        }
                    }
                }
                return Err(e);
            },
            Ok(StepOutcome::Finished(v)) => {
                proof {
                    if !diverged {
                        assert forall|n: nat|
                            ((#[trigger] spec_run(funcs, init, n)) is Done) implies spec_run(
                            funcs,
                            init,
                            n,
                        ) == RunV::Done(v) by {
                            if n <= steps {
                                assert(spec_run(funcs, init, 0 + steps) == spec_run(
                                    funcs,
                                    pre,
                                    0,
                                ));
                                lemma_run_more(funcs, init, steps, n);
                            } else {
                                let m = (n - steps) as nat;
                                assert(spec_run(funcs, init, m + steps) == spec_run(
                                    funcs,
                                    pre,
                                    m,
                                ));
                                assert(spec_run(funcs, pre, m) == RunV::Done(v));
                            }
                        }
                    }
                }
                return Ok(v);
            },
            Ok(StepOutcome::Continue) => {
                proof {
                    if !diverged {
                        let post = state_of(callers@, cur@, stack@);
                        assert(spec_step(funcs, pre) == StepV::Next(post));
                        assert forall|n: nat|
                            spec_run(funcs, init, n + (steps + 1)) == #[trigger] spec_run(
                                funcs,
                                post,
                                n,
                            ) by {
                            assert(spec_run(funcs, init, (n + 1) + steps) == spec_run(
                                funcs,
                                pre,
                                n + 1,
                            ));
                            assert(spec_run(funcs, pre, n + 1) == spec_run(funcs, post, n));
                        }
                        steps = steps + 1;
                    }
                }
            },
            Ok(StepOutcome::ImportCall(idx)) => {
                proof {
                    if !diverged {
                        assert forall|n: nat|
                            ((#[trigger] spec_run(funcs, init, n)) is More) || (spec_run(
                                funcs,
                                init,
                                n,
                            ) is External) by {
                            if n <= steps {
                                assert(spec_run(funcs, init, 0 + steps) == spec_run(
                                    funcs,
                                    pre,
                                    0,
                                ));
                                lemma_run_more(funcs, init, steps, n);
                            } else {
                                let m = (n - steps) as nat;
                                assert(spec_run(funcs, init, m + steps) == spec_run(
                                    funcs,
                                    pre,
                                    m,
                                ));
                                assert(spec_run(funcs, pre, m) == RunV::External);
                            }
                        }
                    }
                    diverged = true;
                }
                let (mname, fname, nparams) = match store.get_func(idx) {
                    Ok(f) => match f {
                        FuncInst::External { module_name, field_name, func_type } => (
                            module_name.clone(),
                            field_name.clone(),
                            func_type.params.len(),
                        ),
                        FuncInst::Internal { .. } => {
                            return Err(RuntimeError::UnknownImport);
                        },
                    },
                    Err(e) => {
                        return Err(e);
                    },
                };
                let args = match pop_args(stack, nparams) {
                    Ok(a) => a,
                    Err(e) => {
                        return Err(e);
                    },
                };
                match resolver.call_import(store, &mname, &fname, args) {
                    Ok(res) => {
                        push_result(stack, res);
                    },
                    Err(e) => {
                        return Err(e);
                    },
                }
                if cur.pc < cur.body.len() {
                    cur.pc = cur.pc + 1;
                }
            },
            Ok(StepOutcome::MemWrite(memarg)) => {
                proof {
                    if !diverged {
                        assert forall|n: nat|
                            ((#[trigger] spec_run(funcs, init, n)) is More) || (spec_run(
                                funcs,
                                init,
                                n,
                            ) is External) by {
                            if n <= steps {
                                assert(spec_run(funcs, init, 0 + steps) == spec_run(
                                    funcs,
                                    pre,
                                    0,
                                ));
                                lemma_run_more(funcs, init, steps, n);
                            } else {
                                let m = (n - steps) as nat;
                                assert(spec_run(funcs, init, m + steps) == spec_run(
                                    funcs,
                                    pre,
                                    m,
                                ));
                                assert(spec_run(funcs, pre, m) == RunV::External);
                            }
                        }
                    }
                    diverged = true;
                }
                let v = match stack.pop() {
                    Some(v) => v,
                    None => {
                        return Err(RuntimeError::StackUnderflow);
                    },
                };
                let a = match stack.pop() {
                    Some(a) => a,
                    None => {
                        return Err(RuntimeError::StackUnderflow);
                    },
                };
                let (addr, val) = match (a, v) {
                    (Value::I32(x), Value::I32(y)) => (x, y),
                    _ => {
                        return Err(RuntimeError::TypeMismatch);
                    },
                };
                match resolver.write_memory(store, addr, val, memarg) {
                    Ok(_) => {},
                    Err(e) => {
                        return Err(e);
                    },
                }
                if cur.pc < cur.body.len() {
                    cur.pc = cur.pc + 1;
                }
            },
        }
    }
    proof {
        if !diverged {
            assert forall|n: nat|
                n <= MAX_STEPS implies !((#[trigger] spec_run(funcs, init, n)) is Done) by {
                assert(spec_run(funcs, init, 0 + steps) == spec_run(
                    funcs,
                    state_of(callers@, cur@, stack@),
                    0,
                ));
                lemma_run_more(funcs, init, steps, n);
            }
        }
    }
    Err(RuntimeError::StackUnderflow)
}

/// The models of a list of exports, in order.
pub open spec fn exports_view(v: Seq<Export>) -> Seq<ExportV> {
    v.map_values(|e: Export| e@)
}

/// The function index the first export under `name` resolves to, if any.
pub open spec fn spec_find_export(exports: Seq<ExportV>, name: Seq<char>) -> Option<u32>
    decreases exports.len(),
{
    if exports.len() == 0 {
        None
    } else if exports[0].name == name {
        match exports[0].desc {
            ExportDesc::Func(i) => Some(i),
        }
    } else {
        spec_find_export(exports.drop_first(), name)
    }
}

/// Looks a name up in the export list; returns the first match.
fn find_export(exports: &Vec<Export>, name: &str) -> (r: Option<u32>)
    ensures
        r == spec_find_export(exports_view(exports@), name@),
{
    let owned: String = name.to_owned();
    let mut i: usize = 0;
    proof {
        assert(exports_view(exports@).skip(0) =~= exports_view(exports@));
    }
    while i < exports.len()
        invariant
            i <= exports@.len(),
            owned@ == name@,
            spec_find_export(exports_view(exports@), name@) == spec_find_export(
                exports_view(exports@).skip(i as int),
                name@,
            ),
        decreases exports@.len() - i,
    {
        if exports[i].name.eq(&owned) {
            match exports[i].desc {
                ExportDesc::Func(idx) => {
                    proof {
                        assert(exports_view(exports@).skip(i as int)[0] == exports@[i as int]@);
                    }
                    return Some(idx);
                },
            }
        }
        proof {
            assert(exports_view(exports@).skip(i as int)[0] == exports@[i as int]@);
            assert(exports_view(exports@).skip(i as int).drop_first() =~= exports_view(
                exports@,
            ).skip(i as int + 1));
        }
        i = i + 1;
    }
    proof {
        assert(exports_view(exports@).skip(exports@.len() as int) =~= Seq::<ExportV>::empty());
    }
    None
}

/// The machine state a call to the internal function `f` with the given
/// arguments starts from: one frame, an empty operand stack.
pub open spec fn spec_init_state(f: FuncInstV, args: Seq<Value>) -> StateV {
    match f {
        FuncInstV::Internal { func_type, locals, body } => run_init(
            spec_new_frame(func_type, locals, body, args),
            Seq::empty(),
        ),
        FuncInstV::External { .. } => StateV { frames: Seq::empty(), stack: Seq::empty() },
    }
}

/// Whether an argument list fits a signature: one value per parameter,
/// each of the declared type, and at most one declared result.
pub open spec fn spec_args_fit(ft: FuncTypeV, args: Seq<Value>) -> bool {
    &&& args.len() == ft.params.len()
    &&& (forall|k: int| 0 <= k < args.len() ==> (#[trigger] args[k]).spec_ty() == ft.params[k])
    &&& ft.results.len() <= 1
}

/// Where a call resolves: an entry frame for an internal function, or
/// the name pair of a host import.
enum CallTarget {
    Internal(Frame),
    External(String, String, Vec<Value>),
}

/// The runtime: a store, the host import bridge it resolves imports
/// through, and the export table that maps names to function indices.
pub struct Runtime<R: ImportResolver> {
    pub store: Store,
    pub imports: R,
    pub exports: Vec<Export>,
}

impl<R: ImportResolver> Runtime<R> {
    /// Wraps a built store, a host bridge and an export table.
    pub fn new(store: Store, imports: R, exports: Vec<Export>) -> (r: Runtime<R>)
        ensures
            r.store@ == store@,
            r.exports@ == exports@,
            r.imports == imports,
    {
        Runtime { store, imports, exports }
    }

    /// Calls the function at `idx` in the function index space.
    /// `OutOfRange` exactly when the index has no entry; for an internal
    /// function, `TypeMismatch` exactly when the arguments do not fit
    /// the signature, and otherwise the machine's verdict on the run
    /// from its entry state; an external function is handed to the host
    /// bridge, whose outcome is its own.
    pub fn call_by_index(&mut self, idx: u32, args: Vec<Value>) -> (r: Result<
        Option<Value>,
        RuntimeError,
    >)
        ensures
            ({
                let funcs = old(self).store@;
                &&& idx >= funcs.len() ==> r == Err::<Option<Value>, RuntimeError>(
                    RuntimeError::OutOfRange,
                )
                &&& (idx < funcs.len() && funcs[idx as int] is Internal && !spec_args_fit(
                    funcs[idx as int].ty(),
                    args@,
                )) ==> r == Err::<Option<Value>, RuntimeError>(RuntimeError::TypeMismatch)
                &&& (idx < funcs.len() && funcs[idx as int] is Internal && spec_args_fit(
                    funcs[idx as int].ty(),
                    args@,
                )) ==> ({
                    let init = spec_init_state(funcs[idx as int], args@);
                    match r {
                        Ok(v) => forall|n: nat|
                            (#[trigger] spec_run(funcs, init, n)) matches RunV::Done(w) ==> w == v,
                        Err(_) => forall|n: nat|
                            n <= MAX_STEPS ==> !((#[trigger] spec_run(funcs, init, n)) is Done),
                    }
                })
            }),
    {
        let ghost funcs = self.store@;
        let target = match self.store.get_func(idx) {
            Err(e) => {
                return Err(e);
            },
            Ok(f) => match f {
                FuncInst::External { module_name, field_name, .. } => CallTarget::External(
                    module_name.clone(),
                    field_name.clone(),
                    args,
                ),
                FuncInst::Internal { func_type, locals: decl_locals, body } => {
                    if args.len() != func_type.params.len() {
                        return Err(RuntimeError::TypeMismatch);
                    }
                    if func_type.results.len() > 1 {
                        return Err(RuntimeError::TypeMismatch);
                    }
                    let n = args.len();
                    let mut k: usize = 0;
                    let mut mismatch: bool = false;
                    while k < n && !mismatch
                        invariant
                            k <= n,
                            n == args@.len(),
                            n == func_type@.params.len(),
                            forall|q: int|
                                0 <= q < k ==> (#[trigger] args@[q]).spec_ty()
                                    == func_type@.params[q],
                            mismatch ==> k < n && args@[k as int].spec_ty() != func_type@.params[
                                k as int
                            ],
                        decreases n + 1 - k - (if mismatch { 1int } else { 0int }),
                    {
                        if args[k].ty() != func_type.params[k] {
                            mismatch = true;
                        } else {
                            k = k + 1;
                        }
                    }
                    if mismatch {
                        return Err(RuntimeError::TypeMismatch);
                    }
                    let result_type: Option<ValueType> = if func_type.results.len() == 1 {
                        Some(func_type.results[0])
                    } else {
                        None
                    };
                    let mut locals = args;
                    let ghost args0 = locals@;
                    let mut q: usize = 0;
                    proof {
                        assert(spec_zeros(decl_locals@.take(0)) =~= Seq::<Value>::empty());
                        assert(locals@ =~= args0 + spec_zeros(decl_locals@.take(0)));
                    }
                    while q < decl_locals.len()
                        invariant
                            q <= decl_locals@.len(),
                            locals@ == args0 + spec_zeros(decl_locals@.take(q as int)),
                        decreases decl_locals@.len() - q,
                    {
                        locals.push(Value::zero_of(decl_locals[q]));
                        proof {
                            assert(spec_zeros(decl_locals@.take(q as int + 1)) =~= spec_zeros(
                                decl_locals@.take(q as int),
                            ).push(Value::spec_zero_of(decl_locals@[q as int])));
                            assert(locals@ =~= args0 + spec_zeros(
                                decl_locals@.take(q as int + 1),
                            ));
                        }
                        q = q + 1;
                    }
                    proof {
                        assert(decl_locals@.take(decl_locals@.len() as int) =~= decl_locals@);
                    }
                    let body_copy = crate::store::copy_instructions(body);
                    CallTarget::Internal(
                        Frame { locals, pc: 0, body: body_copy, result_type },
                    )
                },
            },
        };
        match target {
            CallTarget::Internal(frame) => {
                let mut cur = frame;
                let mut stack: Vec<Value> = Vec::new();
                proof {
                    assert(cur@ =~= (match funcs[idx as int] {
                        FuncInstV::Internal { func_type, locals, body } => spec_new_frame(
                            func_type,
                            locals,
                            body,
                            args@,
                        ),
                        FuncInstV::External { .. } => cur@,
                    }));
                    assert(run_init(cur@, stack@) =~= spec_init_state(funcs[idx as int], args@));
                }
                run(&mut self.store, &mut self.imports, &mut cur, &mut stack)
            },
            CallTarget::External(module_name, field_name, host_args) => {
                self.imports.call_import(&mut self.store, &module_name, &field_name, host_args)
            },
        }
    }

    /// Calls an exported function by name. Fails with `UnknownImport`
    /// exactly when no export carries the name; otherwise behaves as
    /// [`Runtime::call_by_index`] on the index the export resolves to.
    pub fn call(&mut self, name: &str, args: Vec<Value>) -> (r: Result<Option<Value>, RuntimeError>)
        ensures
            ({
                let funcs = old(self).store@;
                let found = spec_find_export(exports_view(old(self).exports@), name@);
                &&& found is None ==> r == Err::<Option<Value>, RuntimeError>(
                    RuntimeError::UnknownImport,
                ) && final(self).store@ == old(self).store@
                &&& (match found {
                    Some(idx) => {
                        &&& idx >= funcs.len() ==> r == Err::<Option<Value>, RuntimeError>(
                            RuntimeError::OutOfRange,
                        )
                        &&& (idx < funcs.len() && funcs[idx as int] is Internal && !spec_args_fit(
                            funcs[idx as int].ty(),
                            args@,
                        )) ==> r == Err::<Option<Value>, RuntimeError>(RuntimeError::TypeMismatch)
                        &&& (idx < funcs.len() && funcs[idx as int] is Internal && spec_args_fit(
                            funcs[idx as int].ty(),
                            args@,
                        )) ==> ({
                            let init = spec_init_state(funcs[idx as int], args@);
                            match r {
                                Ok(v) => forall|n: nat|
                                    (#[trigger] spec_run(funcs, init, n)) matches RunV::Done(w)
                                        ==> w == v,
                                Err(_) => forall|n: nat|
                                    n <= MAX_STEPS ==> !((#[trigger] spec_run(funcs, init, n))
                                        is Done),
                            }
                        })
                    },
                    None => true,
                })
            }),
    {
        match find_export(&self.exports, name) {
            None => Err(RuntimeError::UnknownImport),
            Some(idx) => self.call_by_index(idx, args),
        }
    }
}


/// For every pair of 32-bit values `a` and `b`, executing the program
/// `I32Const(a); I32Const(b); I32Add; End` under a declared `I32` result
/// yields `I32(a + b)` with 32-bit wraparound and no overflow trap,
/// whatever function table is in scope: the machine settles on that
/// result after four steps and never on anything else.
pub proof fn lemma_i32_add_program(funcs: Seq<FuncInstV>, a: i32, b: i32)
    ensures
        ({
            let body = seq![
                Instruction::I32Const(a),
                Instruction::I32Const(b),
                Instruction::I32Add,
                Instruction::End,
            ];
            let init = run_init(
                FrameV {
                    locals: Seq::empty(),
                    pc: 0,
                    body,
                    result_type: Some(ValueType::I32),
                },
                Seq::empty(),
            );
            forall|n: nat|
                n >= 4 ==> #[trigger] spec_run(funcs, init, n) == RunV::Done(
                    Some(Value::I32(a.wrapping_add(b))),
                )
        }),
{
    let body = seq![
        Instruction::I32Const(a),
        Instruction::I32Const(b),
        Instruction::I32Add,
        Instruction::End,
    ];
    let f0 = FrameV { locals: Seq::empty(), pc: 0, body, result_type: Some(ValueType::I32) };
    let s0 = run_init(f0, Seq::empty());
    let sum = Value::I32(a.wrapping_add(b));
    let f1 = FrameV { pc: 1, ..f0 };
    let s1 = StateV { frames: seq![f1], stack: seq![Value::I32(a)] };
    let f2 = FrameV { pc: 2, ..f0 };
    let s2 = StateV { frames: seq![f2], stack: seq![Value::I32(a), Value::I32(b)] };
    let f3 = FrameV { pc: 3, ..f0 };
    let s3 = StateV { frames: seq![f3], stack: seq![sum] };
    assert(body[0] == Instruction::I32Const(a));
    assert(body[1] == Instruction::I32Const(b));
    assert(body[2] == Instruction::I32Add);
    assert(body[3] == Instruction::End);
    assert(s0.frames.last() == f0);
    assert(s0.frames.drop_last().push(f1) =~= s1.frames);
    assert(s0.stack.push(Value::I32(a)) =~= s1.stack);
    assert(spec_step(funcs, s0) == StepV::Next(s1));
    assert(s1.frames.last() == f1);
    assert(s1.frames.drop_last().push(f2) =~= s2.frames);
    assert(s1.stack.push(Value::I32(b)) =~= s2.stack);
    assert(spec_step(funcs, s1) == StepV::Next(s2));
    assert(s2.frames.last() == f2);
    assert(s2.stack.len() == 2);
    assert(s2.stack.last() == Value::I32(b));
    assert(s2.stack[0] == Value::I32(a));
    assert(Value::spec_add(Value::I32(a), Value::I32(b)) == Ok::<Value, RuntimeError>(sum));
    assert(s2.frames.drop_last().push(f3) =~= s3.frames);
    assert(s2.stack.take(0).push(sum) =~= s3.stack);
    assert(spec_step(funcs, s2) == StepV::Next(s3));
    assert(s3.frames.last() == f3);
    assert(s3.frames.drop_last().len() == 0);
    assert(s3.stack.last() == sum);
    assert(sum.spec_ty() == ValueType::I32);
    assert(spec_step(funcs, s3) == StepV::Done(Some(sum)));
    assert(spec_run(funcs, s3, 1) == RunV::Done(Some(sum)));
    assert(spec_run(funcs, s2, 2) == RunV::Done(Some(sum)));
    assert(spec_run(funcs, s1, 3) == RunV::Done(Some(sum)));
    assert(spec_run(funcs, s0, 4) == RunV::Done(Some(sum)));
    assert forall|n: nat| n >= 4 implies #[trigger] spec_run(funcs, s0, n) == RunV::Done(
        Some(sum),
    ) by {
        lemma_run_settled(funcs, s0, 4, n);
    }
}

} // verus!
