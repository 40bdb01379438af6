//! The machine: it executes a program instruction by instruction on one
//! operand stack, one heap and one variable store.
//!
//! Calling a function starts a new invocation of the same algorithm on the
//! same stack, heap and store. An invocation has no variables of its own:
//! all the machine keeps of it is which instruction comes next, so that it
//! can stop between any two instructions and let the collector run.

use vstd::prelude::*;
use crate::effect::{Flow, FlowView, Memory, execute, effect, memory, replaced, value_at};
use crate::error::{Fault, ValueKind, VmError};
use crate::gc::{collected, gc, resolved, roots};
use crate::heap::{Heap, HeapValue, UnsizedValue};
use crate::opcodes::{OpCode, OpKind, OpView, code_view, duplicate_code};
use crate::stack::Stack;
use crate::store::Store;
use crate::value::{SizedValue, address_of};

verus! {

/// What remains to be done of one call.
#[derive(Debug)]
pub enum Invocation {
    /// The instructions of a program or function body; `pc` is the index of
    /// the next one.
    Code { code: Vec<OpCode>, pc: usize },
    /// The `ForEach` capability at work: `callee` is still to be called for
    /// the elements from `next` on. `site` is the index of the `Call` that
    /// started it.
    Each { items: Vec<SizedValue>, next: usize, callee: SizedValue, site: usize },
}

/// An invocation as contracts see it.
pub enum InvocationView {
    Code { code: Seq<OpView>, pc: usize },
    Each { items: Seq<SizedValue>, next: usize, callee: SizedValue, site: usize },
}

impl View for Invocation {
    type V = InvocationView;

    open spec fn view(&self) -> InvocationView {
        match self {
            Invocation::Code { code, pc } => InvocationView::Code { code: code_view(code@), pc: *pc },
            Invocation::Each { items, next, callee, site } => InvocationView::Each {
                items: items@,
                next: *next,
                callee: *callee,
                site: *site,
            },
        }
    }
}

/// The diagnostic with which execution ends on a fault: the kind of the
/// failure, the instruction that failed and its index in its program or
/// function body, and the kind of the value that caused the failure, where
/// a value did.
#[derive(Clone, Copy, Debug, PartialEq, Eq, Structural)]
pub struct Diagnostic {
    pub error: VmError,
    pub opcode: OpKind,
    pub pc: usize,
    pub offending: Option<ValueKind>,
}

/// How the machine stands after it has been asked to execute.
#[derive(Clone, Copy, Debug, PartialEq, Eq, Structural)]
pub enum Status {
    /// There are instructions left to execute.
    Running,
    /// Every invocation has ended.
    Halted,
    /// An instruction faulted. The machine is as it was before that
    /// instruction, and will fault on it again.
    Fault(Diagnostic),
}

/// The whole state of a machine.
pub struct VmState {
    /// The stack, heap and store.
    pub memory: Memory,
    /// The invocations that have not ended, the current one last.
    pub calls: Seq<InvocationView>,
}

/// The machine.
#[derive(Debug)]
pub struct Vm {
    pub stack: Stack,
    pub heap: Heap,
    pub store: Store,
    pub calls: Vec<Invocation>,
}

/// A sequence of invocations as contracts see it.
pub open spec fn calls_view(calls: Seq<Invocation>) -> Seq<InvocationView> {
    Seq::new(calls.len(), |i: int| calls[i]@)
}

impl View for Vm {
    type V = VmState;

    open spec fn view(&self) -> VmState {
        VmState { memory: memory(self.stack@, self.heap@, self.store@), calls: calls_view(self.calls@) }
    }
}

/// The diagnostic of a fault of the instruction `opcode` at `pc`.
pub open spec fn diagnosed(fault: Fault, opcode: OpKind, pc: usize) -> Diagnostic {
    Diagnostic { error: fault.error, opcode, pc, offending: fault.offending }
}

/// Where a jump by `offset` from the instruction at `pc` lands in a body of
/// `len` instructions: `offset` instructions after the one that follows the
/// jump. Beyond the end is the end; before the start is nowhere.
pub open spec fn landing(pc: usize, offset: i64, len: nat) -> Option<usize> {
    if pc + 1 + offset < 0 {
        None
    } else if pc + 1 + offset >= len {
        Some(len as usize)
    } else {
        Some((pc + 1 + offset) as usize)
    }
}

/// The invocations after the current one, which stands at `pc` in `code`,
/// has sent control along `flow`; nothing where a jump lands nowhere.
pub open spec fn continued(calls: Seq<InvocationView>, code: Seq<OpView>, pc: usize, flow: FlowView) -> Option<
    Seq<InvocationView>,
> {
    let rest = calls.drop_last();
    let after = InvocationView::Code { code, pc: (pc + 1) as usize };
    match flow {
        FlowView::Next => Some(rest.push(after)),
        FlowView::Jump(offset) => match landing(pc, offset, code.len()) {
            Some(target) => Some(rest.push(InvocationView::Code { code, pc: target })),
            None => None,
        },
        FlowView::Return => Some(rest),
        FlowView::Enter(body) => Some(rest.push(after).push(InvocationView::Code { code: body, pc: 0 })),
        FlowView::Each(items, callee) => Some(
            rest.push(after).push(InvocationView::Each { items, next: 0, callee, site: pc }),
        ),
    }
}

/// One step of an invocation that has an instruction left: the instruction
/// at `pc` takes effect and control moves on, or the instruction faults.
pub open spec fn step_code(s: VmState, code: Seq<OpView>, pc: usize) -> (VmState, Status) {
    match effect(code[pc as int], s.memory) {
        Err(fault) => (s, Status::Fault(diagnosed(fault, code[pc as int].kind(), pc))),
        Ok((m, flow)) => match continued(s.calls, code, pc, flow) {
            Some(calls) => (VmState { memory: m, calls }, Status::Running),
            None => (
                s,
                Status::Fault(
                    diagnosed(Fault::bare(VmError::IndexOutOfRange), code[pc as int].kind(), pc),
                ),
            ),
        },
    }
}

/// The body of the function that `callee` addresses.
pub open spec fn body_of(heap: Seq<HeapValue>, callee: SizedValue) -> Result<Seq<OpView>, Fault> {
    match address_of(callee) {
        Err(fault) => Err(fault),
        Ok(address) => match value_at(heap, address) {
            Err(fault) => Err(fault),
            Ok(value) => match value {
                HeapValue::Function(body) => Ok(body),
                _ => Err(Fault::on(VmError::TypeMismatch, value.kind())),
            },
        },
    }
}

/// One step of `ForEach` with an element left: the element is pushed and
/// the function that `callee` addresses at this moment is entered.
pub open spec fn step_each(
    s: VmState,
    items: Seq<SizedValue>,
    next: usize,
    callee: SizedValue,
    site: usize,
) -> (VmState, Status) {
    match body_of(s.memory.heap, callee) {
        Err(fault) => (s, Status::Fault(diagnosed(fault, OpKind::Call, site))),
        Ok(body) => (
            VmState {
                memory: replaced(s.memory, 0, items[next as int]),
                calls: s.calls.drop_last().push(
                    InvocationView::Each { items, next: (next + 1) as usize, callee, site },
                ).push(InvocationView::Code { code: body, pc: 0 }),
            },
            Status::Running,
        ),
    }
}

/// One step of the machine. With no invocation left it has halted. An
/// invocation with nothing left to do ends; any other does its next piece
/// of work.
pub open spec fn step(s: VmState) -> (VmState, Status) {
    if s.calls.len() == 0 {
        (s, Status::Halted)
    } else {
        match s.calls.last() {
            InvocationView::Code { code, pc } => if pc >= code.len() {
                (VmState { calls: s.calls.drop_last(), ..s }, Status::Running)
            } else {
                step_code(s, code, pc)
            },
            InvocationView::Each { items, next, callee, site } => if next >= items.len() {
                (VmState { calls: s.calls.drop_last(), ..s }, Status::Running)
            } else {
                step_each(s, items, next, callee, site)
            },
        }
    }
}

/// Up to `fuel` steps of the machine: it stops early where it halts or
/// faults.
pub open spec fn steps(s: VmState, fuel: nat) -> (VmState, Status)
    decreases fuel,
{
    if s.calls.len() == 0 {
        (s, Status::Halted)
    } else if fuel == 0 {
        (s, Status::Running)
    } else if step(s).1 is Fault {
        step(s)
    } else {
        steps(step(s).0, (fuel - 1) as nat)
    }
}

/// The state after one collection; an error where a root addresses no
/// slot.
pub open spec fn collection(s: VmState) -> Result<VmState, VmError> {
    if resolved(roots(s.memory.stack, s.memory.store), s.memory.heap) {
        Ok(
            VmState {
                memory: Memory {
                    heap: collected(roots(s.memory.stack, s.memory.store), s.memory.heap),
                    ..s.memory
                },
                ..s
            },
        )
    } else {
        Err(VmError::UnresolvedAddress)
    }
}

/// Up to `fuel` steps of the machine with a collection after every
/// `interval` steps; with an interval of zero nothing is collected. Ends
/// with the status of the machine, or with the error of a collection.
pub open spec fn cycles(s: VmState, fuel: nat, interval: nat) -> (VmState, Result<Status, VmError>)
    decreases fuel,
{
    if interval == 0 || fuel <= interval {
        (steps(s, fuel).0, Ok(steps(s, fuel).1))
    } else if !(steps(s, interval).1 is Running) {
        (steps(s, interval).0, Ok(steps(s, interval).1))
    } else {
        match collection(steps(s, interval).0) {
            Err(error) => (steps(s, interval).0, Err(error)),
            Ok(clean) => cycles(clean, (fuel - interval) as nat, interval),
        }
    }
}

/// The state with a new invocation of `body` as the current one.
pub open spec fn entered(s: VmState, body: Seq<OpView>) -> VmState {
    VmState { calls: s.calls.push(InvocationView::Code { code: body, pc: 0 }), ..s }
}

/// What loading a program does: a function is entered; anything else is
/// refused as a call of it would be.
pub open spec fn loaded(s: VmState, program: HeapValue) -> Result<VmState, Diagnostic> {
    match program {
        HeapValue::Function(body) => Ok(entered(s, body)),
        _ => Err(diagnosed(Fault::on(VmError::TypeMismatch, program.kind()), OpKind::Call, 0)),
    }
}

/// Where a jump lands.
fn land(pc: usize, offset: i64, len: usize) -> (target: Option<usize>)
    requires
        pc < len,
    ensures
        target == landing(pc, offset, len as nat),
{
    let target: i128 = pc as i128 + 1 + offset as i128;
    if target < 0 {
        None
    } else if target >= len as i128 {
        Some(len)
    } else {
        Some(target as usize)
    }
}

impl Vm {
    /// A machine with an empty stack, an empty heap, `slots` variable slots
    /// holding `Null`, and nothing to execute.
    pub fn new(slots: usize) -> (vm: Vm)
        ensures
            vm@.memory == memory(
                Seq::<SizedValue>::empty(),
                Seq::<HeapValue>::empty(),
                Seq::new(slots as nat, |i: int| SizedValue::Null),
            ),
            vm@.calls == Seq::<InvocationView>::empty(),
    {
        let vm = Vm { stack: Stack::new(), heap: Heap::new(), store: Store::new(slots), calls: Vec::new() };
        assert(vm@.calls =~= Seq::<InvocationView>::empty());
        vm
    }

    /// Whether every invocation has ended.
    pub fn halted(&self) -> (halted: bool)
        ensures
            halted == (self@.calls.len() == 0),
    {
        self.calls.len() == 0
    }

    /// Makes `program`, a function, the current invocation. Anything but a
    /// function is refused, and the machine stays as it is.
    pub fn load(&mut self, program: &UnsizedValue) -> (result: Result<(), Diagnostic>)
        ensures
            match result {
                Ok(()) => loaded(old(self)@, program@) == Ok::<VmState, Diagnostic>(final(self)@),
                Err(diagnostic) => loaded(old(self)@, program@) == Err::<VmState, Diagnostic>(diagnostic)
                    && final(self)@ == old(self)@,
            },
    {
        match program {
            UnsizedValue::Function(body) => {
                self.calls.push(Invocation::Code { code: duplicate_code(body), pc: 0 });
                assert(self@.calls =~= old(self)@.calls.push(
                    InvocationView::Code { code: code_view(body@), pc: 0 },
                ));
                Ok(())
            },
            _ => Err(
                Diagnostic {
                    error: VmError::TypeMismatch,
                    opcode: OpKind::Call,
                    pc: 0,
                    offending: Some(program.kind()),
                },
            ),
        }
    }

    /// Does the next piece of work of an invocation that has just been taken
    /// off `calls` and has an instruction left.
    fn step_code(&mut self, code: Vec<OpCode>, pc: usize, Ghost(before): Ghost<VmState>) -> (status: Status)
        requires
            pc < code@.len(),
            before.calls.len() > 0,
            before.calls.last() == (InvocationView::Code { code: code_view(code@), pc }),
            old(self)@ == (VmState { calls: before.calls.drop_last(), ..before }),
        ensures
            (final(self)@, status) == step_code(before, code_view(code@), pc),
    {
        let ghost rest = self@.calls;
        let ghost seen = code_view(code@);
        assert(before.calls =~= rest.push(before.calls.last()));
        assert(pc < code.len());
        let kind = code[pc].kind();
        let result = execute(&code[pc], &mut self.stack, &mut self.heap, &mut self.store);
        match result {
            Err(fault) => {
                self.calls.push(Invocation::Code { code, pc });
                assert(self@.calls =~= before.calls);
                Status::Fault(Diagnostic { error: fault.error, opcode: kind, pc, offending: fault.offending })
            },
            Ok(Flow::Next) => {
                self.calls.push(Invocation::Code { code, pc: pc + 1 });
                assert(self@.calls =~= rest.push(InvocationView::Code { code: seen, pc: (pc + 1) as usize }));
                Status::Running
            },
            Ok(Flow::Jump(offset)) => {
                match land(pc, offset, code.len()) {
                    Some(target) => {
                        self.calls.push(Invocation::Code { code, pc: target });
                        assert(self@.calls =~= rest.push(InvocationView::Code { code: seen, pc: target }));
                        Status::Running
                    },
                    None => {
                        if let OpCode::JumpIfFalse(_) = &code[pc] {
                            self.stack.push(SizedValue::Bool(false));
                            assert(self.stack@ =~= before.memory.stack);
                        }
                        self.calls.push(Invocation::Code { code, pc });
                        assert(self@.calls =~= before.calls);
                        Status::Fault(
                            Diagnostic { error: VmError::IndexOutOfRange, opcode: kind, pc, offending: None },
                        )
                    },
                }
            },
            Ok(Flow::Return) => Status::Running,
            Ok(Flow::Enter(body)) => {
                let ghost entered = code_view(body@);
                self.calls.push(Invocation::Code { code, pc: pc + 1 });
                self.calls.push(Invocation::Code { code: body, pc: 0 });
                assert(self@.calls =~= rest.push(
                    InvocationView::Code { code: seen, pc: (pc + 1) as usize },
                ).push(InvocationView::Code { code: entered, pc: 0 }));
                Status::Running
            },
            Ok(Flow::Each(items, callee)) => {
                let ghost elements = items@;
                self.calls.push(Invocation::Code { code, pc: pc + 1 });
                self.calls.push(Invocation::Each { items, next: 0, callee, site: pc });
                assert(self@.calls =~= rest.push(
                    InvocationView::Code { code: seen, pc: (pc + 1) as usize },
                ).push(InvocationView::Each { items: elements, next: 0, callee, site: pc }));
                Status::Running
            },
        }
    }

    /// Does the next piece of work of a `ForEach` that has just been taken
    /// off `calls` and has an element left.
    fn step_each(
        &mut self,
        items: Vec<SizedValue>,
        next: usize,
        callee: SizedValue,
        site: usize,
        Ghost(before): Ghost<VmState>,
    ) -> (status: Status)
        requires
            next < items@.len(),
            before.calls.len() > 0,
            before.calls.last() == (InvocationView::Each { items: items@, next, callee, site }),
            old(self)@ == (VmState { calls: before.calls.drop_last(), ..before }),
        ensures
            (final(self)@, status) == step_each(before, items@, next, callee, site),
    {
        let ghost rest = self@.calls;
        let ghost elements = items@;
        assert(before.calls =~= rest.push(before.calls.last()));
        assert(next < items.len());
        let body = match callee.as_address() {
            Err(fault) => Err(fault),
            Ok(address) => match self.heap.get(address) {
                Err(error) => Err(Fault { error, offending: Some(ValueKind::Address) }),
                Ok(value) => match value {
                    UnsizedValue::Function(body) => Ok(duplicate_code(body)),
                    _ => Err(Fault { error: VmError::TypeMismatch, offending: Some(value.kind()) }),
                },
            },
        };
        match body {
            Err(fault) => {
                self.calls.push(Invocation::Each { items, next, callee, site });
                assert(self@.calls =~= before.calls);
                Status::Fault(
                    Diagnostic { error: fault.error, opcode: OpKind::Call, pc: site, offending: fault.offending },
                )
            },
            Ok(body) => {
                let ghost entered = code_view(body@);
                self.stack.push(items[next]);
                assert(self.stack@ =~= before.memory.stack.take(before.memory.stack.len() as int).push(
                    elements[next as int],
                ));
                self.calls.push(Invocation::Each { items, next: next + 1, callee, site });
                self.calls.push(Invocation::Code { code: body, pc: 0 });
                assert(self@.calls =~= rest.push(
                    InvocationView::Each { items: elements, next: (next + 1) as usize, callee, site },
                ).push(InvocationView::Code { code: entered, pc: 0 }));
                Status::Running
            },
        }
    }

    /// Executes one step.
    pub fn step(&mut self) -> (status: Status)
        ensures
            (final(self)@, status) == step(old(self)@),
    {
        let ghost before = self@;
        let top = match self.calls.pop() {
            None => {
                return Status::Halted;
            },
            Some(top) => top,
        };
        assert(self@.calls =~= before.calls.drop_last());
        assert(before.calls.last() == top@);
        match top {
            Invocation::Code { code, pc } => {
                if pc >= code.len() {
                    Status::Running
                } else {
                    self.step_code(code, pc, Ghost(before))
                }
            },
            Invocation::Each { items, next, callee, site } => {
                if next >= items.len() {
                    Status::Running
                } else {
                    self.step_each(items, next, callee, site, Ghost(before))
                }
            },
        }
    }

    /// Executes up to `fuel` steps; stops early where the machine halts or
    /// faults.
    pub fn advance(&mut self, fuel: u64) -> (status: Status)
        ensures
            (final(self)@, status) == steps(old(self)@, fuel as nat),
    {
        let mut left: u64 = fuel;
        while left > 0 && self.calls.len() > 0
            invariant
                steps(self@, left as nat) == steps(old(self)@, fuel as nat),
            decreases left,
        {
            let status = self.step();
            if let Status::Fault(_) = status {
                return status;
            }
            left = left - 1;
        }
        if self.calls.len() == 0 {
            Status::Halted
        } else {
            Status::Running
        }
    }

    /// Runs the collector on the machine's stack, store and heap.
    pub fn collect(&mut self) -> (result: Result<(), VmError>)
        ensures
            match result {
                Ok(()) => collection(old(self)@) == Ok::<VmState, VmError>(final(self)@),
                Err(error) => collection(old(self)@) == Err::<VmState, VmError>(error) && final(self)@
                    == old(self)@,
            },
    {
        gc(&mut self.stack, &mut self.heap, &mut self.store)
    }

    /// Executes up to `fuel` steps, with a collection after every `interval`
    /// steps while the machine is running. An interval of zero collects
    /// nothing.
    pub fn resume(&mut self, fuel: u64, interval: u64) -> (result: Result<Status, VmError>)
        ensures
            (final(self)@, result) == cycles(old(self)@, fuel as nat, interval as nat),
    {
        let mut left: u64 = fuel;
        while interval > 0 && left > interval
            invariant
                cycles(self@, left as nat, interval as nat) == cycles(
                    old(self)@,
                    fuel as nat,
                    interval as nat,
                ),
            decreases left,
        {
            let status = self.advance(interval);
            match status {
                Status::Running => {},
                _ => {
                    return Ok(status);
                },
            }
            match self.collect() {
                Ok(()) => {},
                Err(error) => {
                    return Err(error);
                },
            }
            left = left - interval;
        }
        Ok(self.advance(left))
    }

    /// Loads `program` and executes it for up to `fuel` steps, with a
    /// collection after every `interval` steps. A program that is no
    /// function faults at once.
    pub fn run(&mut self, program: &UnsizedValue, fuel: u64, interval: u64) -> (result: Result<
        Status,
        VmError,
    >)
        ensures
            (final(self)@, result) == match loaded(old(self)@, program@) {
                Ok(ready) => cycles(ready, fuel as nat, interval as nat),
                Err(diagnostic) => (old(self)@, Ok(Status::Fault(diagnostic))),
            },
    {
        match self.load(program) {
            Ok(()) => self.resume(fuel, interval),
            Err(diagnostic) => Ok(Status::Fault(diagnostic)),
        }
    }
}

} // verus!
