//! The instruction set, and what stands for an instruction in contracts.

use vstd::prelude::*;

verus! {

/// One instruction of a program.
#[derive(Debug, PartialEq, Eq)]
pub enum OpCode {
    /// Pops the right then the left operand, both integers, and pushes `left + right`.
    Add,
    /// Pops the right then the left operand, both integers, and pushes `left - right`.
    Sub,
    /// Pops the right then the left operand, both integers, and pushes `left * right`.
    Mul,
    /// Pops the right then the left operand, both integers, and pushes `left / right`.
    Div,
    /// Pops the right then the left operand, both integers, and pushes the remainder of `left / right`.
    Mod,
    /// Pops an integer and pushes it negated.
    Neg,
    /// Pops a boolean and pushes its complement.
    Not,
    /// Pops the right then the left operand, both booleans, and pushes `left && right`.
    And,
    /// Pops the right then the left operand, both booleans, and pushes `left || right`.
    Or,
    /// Pops the right then the left operand, of one variant, and pushes whether they are equal.
    Eq,
    /// Pops the right then the left operand, of one variant, and pushes whether they are not equal.
    Neq,
    /// Pops the right then the left operand, of one variant, and pushes whether `left < right`.
    Lt,
    /// Pops the right then the left operand, of one variant, and pushes whether `left > right`.
    Gt,
    /// Pops the right then the left operand, of one variant, and pushes whether `left <= right`.
    Lte,
    /// Pops the right then the left operand, of one variant, and pushes whether `left >= right`.
    Gte,
    /// Pushes the integer.
    PushInt(i64),
    /// Pushes the float with this IEEE 754 bit pattern.
    PushFloat(u64),
    /// Allocates the string on the heap and pushes its address.
    PushString(String),
    /// Pushes the boolean.
    PushBool(bool),
    /// Allocates an object without fields and pushes its address.
    PushObject,
    /// Allocates an empty list with the builtin list methods and pushes its address.
    PushList,
    /// Allocates a function with this body and pushes its address.
    Function(Vec<OpCode>),
    /// Pops a value and writes it to the variable slot.
    Store(usize),
    /// Pushes a copy of the variable slot's value.
    Load(usize),
    /// Continues at the instruction this many instructions after the next one
    /// (before it, where the offset is negative).
    Jump(i64),
    /// Pops a boolean and, where it is `false`, jumps as `Jump` does.
    JumpIfFalse(i64),
    /// Pops a value and invokes it: the function at an address, or a native
    /// capability.
    Call,
    /// Ends the current invocation.
    Return,
    /// Pops an index, then the address of a list, and pushes the element at the
    /// index.
    ListAccess,
    /// Pops the address of a property name, then the address of a receiver, and
    /// pushes the receiver's builtin method of that name.
    PropertyLoad,
    /// Pops a value and pushes it twice.
    Dup,
}

/// An instruction as contracts see it: text as a sequence of characters, a
/// function body as a sequence of instructions.
pub enum OpView {
    Add,
    Sub,
    Mul,
    Div,
    Mod,
    Neg,
    Not,
    And,
    Or,
    Eq,
    Neq,
    Lt,
    Gt,
    Lte,
    Gte,
    PushInt(i64),
    PushFloat(u64),
    PushString(Seq<char>),
    PushBool(bool),
    PushObject,
    PushList,
    Function(Seq<OpView>),
    Store(usize),
    Load(usize),
    Jump(i64),
    JumpIfFalse(i64),
    Call,
    Return,
    ListAccess,
    PropertyLoad,
    Dup,
}

/// An instruction without its operand: what a diagnostic names.
#[derive(Clone, Copy, Debug, PartialEq, Eq, Structural)]
pub enum OpKind {
    Add,
    Sub,
    Mul,
    Div,
    Mod,
    Neg,
    Not,
    And,
    Or,
    Eq,
    Neq,
    Lt,
    Gt,
    Lte,
    Gte,
    PushInt,
    PushFloat,
    PushString,
    PushBool,
    PushObject,
    PushList,
    Function,
    Store,
    Load,
    Jump,
    JumpIfFalse,
    Call,
    Return,
    ListAccess,
    PropertyLoad,
    Dup,
}

impl View for OpCode {
    type V = OpView;

    open spec fn view(&self) -> OpView
        decreases self,
    {
        match self {
            OpCode::Add => OpView::Add,
            OpCode::Sub => OpView::Sub,
            OpCode::Mul => OpView::Mul,
            OpCode::Div => OpView::Div,
            OpCode::Mod => OpView::Mod,
            OpCode::Neg => OpView::Neg,
            OpCode::Not => OpView::Not,
            OpCode::And => OpView::And,
            OpCode::Or => OpView::Or,
            OpCode::Eq => OpView::Eq,
            OpCode::Neq => OpView::Neq,
            OpCode::Lt => OpView::Lt,
            OpCode::Gt => OpView::Gt,
            OpCode::Lte => OpView::Lte,
            OpCode::Gte => OpView::Gte,
            OpCode::PushInt(operand) => OpView::PushInt(*operand),
            OpCode::PushFloat(operand) => OpView::PushFloat(*operand),
            OpCode::PushString(text) => OpView::PushString(text@),
            OpCode::PushBool(operand) => OpView::PushBool(*operand),
            OpCode::PushObject => OpView::PushObject,
            OpCode::PushList => OpView::PushList,
            OpCode::Function(body) => OpView::Function(
                Seq::new(
                    body@.len(),
                    |i: int|
                        if 0 <= i < body@.len() {
                            body@[i].view()
                        } else {
                            OpView::Return
                        },
                ),
            ),
            OpCode::Store(operand) => OpView::Store(*operand),
            OpCode::Load(operand) => OpView::Load(*operand),
            OpCode::Jump(operand) => OpView::Jump(*operand),
            OpCode::JumpIfFalse(operand) => OpView::JumpIfFalse(*operand),
            OpCode::Call => OpView::Call,
            OpCode::Return => OpView::Return,
            OpCode::ListAccess => OpView::ListAccess,
            OpCode::PropertyLoad => OpView::PropertyLoad,
            OpCode::Dup => OpView::Dup,
        }
    }
}

impl OpView {
    /// The instruction without its operand.
    pub open spec fn kind(self) -> OpKind {
        match self {
            OpView::Add => OpKind::Add,
            OpView::Sub => OpKind::Sub,
            OpView::Mul => OpKind::Mul,
            OpView::Div => OpKind::Div,
            OpView::Mod => OpKind::Mod,
            OpView::Neg => OpKind::Neg,
            OpView::Not => OpKind::Not,
            OpView::And => OpKind::And,
            OpView::Or => OpKind::Or,
            OpView::Eq => OpKind::Eq,
            OpView::Neq => OpKind::Neq,
            OpView::Lt => OpKind::Lt,
            OpView::Gt => OpKind::Gt,
            OpView::Lte => OpKind::Lte,
            OpView::Gte => OpKind::Gte,
            OpView::PushInt(_) => OpKind::PushInt,
            OpView::PushFloat(_) => OpKind::PushFloat,
            OpView::PushString(_) => OpKind::PushString,
            OpView::PushBool(_) => OpKind::PushBool,
            OpView::PushObject => OpKind::PushObject,
            OpView::PushList => OpKind::PushList,
            OpView::Function(_) => OpKind::Function,
            OpView::Store(_) => OpKind::Store,
            OpView::Load(_) => OpKind::Load,
            OpView::Jump(_) => OpKind::Jump,
            OpView::JumpIfFalse(_) => OpKind::JumpIfFalse,
            OpView::Call => OpKind::Call,
            OpView::Return => OpKind::Return,
            OpView::ListAccess => OpKind::ListAccess,
            OpView::PropertyLoad => OpKind::PropertyLoad,
            OpView::Dup => OpKind::Dup,
        }
    }
}

/// A sequence of instructions as contracts see it.
pub open spec fn code_view(code: Seq<OpCode>) -> Seq<OpView> {
    Seq::new(code.len(), |i: int| code[i]@)
}

impl OpCode {
    /// The instruction without its operand.
    pub fn kind(&self) -> (kind: OpKind)
        ensures
            kind == self@.kind(),
    {
        match self {
            OpCode::Add => OpKind::Add,
            OpCode::Sub => OpKind::Sub,
            OpCode::Mul => OpKind::Mul,
            OpCode::Div => OpKind::Div,
            OpCode::Mod => OpKind::Mod,
            OpCode::Neg => OpKind::Neg,
            OpCode::Not => OpKind::Not,
            OpCode::And => OpKind::And,
            OpCode::Or => OpKind::Or,
            OpCode::Eq => OpKind::Eq,
            OpCode::Neq => OpKind::Neq,
            OpCode::Lt => OpKind::Lt,
            OpCode::Gt => OpKind::Gt,
            OpCode::Lte => OpKind::Lte,
            OpCode::Gte => OpKind::Gte,
            OpCode::PushInt(_) => OpKind::PushInt,
            OpCode::PushFloat(_) => OpKind::PushFloat,
            OpCode::PushString(_) => OpKind::PushString,
            OpCode::PushBool(_) => OpKind::PushBool,
            OpCode::PushObject => OpKind::PushObject,
            OpCode::PushList => OpKind::PushList,
            OpCode::Function(_) => OpKind::Function,
            OpCode::Store(_) => OpKind::Store,
            OpCode::Load(_) => OpKind::Load,
            OpCode::Jump(_) => OpKind::Jump,
            OpCode::JumpIfFalse(_) => OpKind::JumpIfFalse,
            OpCode::Call => OpKind::Call,
            OpCode::Return => OpKind::Return,
            OpCode::ListAccess => OpKind::ListAccess,
            OpCode::PropertyLoad => OpKind::PropertyLoad,
            OpCode::Dup => OpKind::Dup,
        }
    }

    /// A copy of the instruction, function bodies included.
    pub fn duplicate(&self) -> (copy: OpCode)
        ensures
            copy@ == self@,
        decreases self,
    {
        match self {
            OpCode::Add => OpCode::Add,
            OpCode::Sub => OpCode::Sub,
            OpCode::Mul => OpCode::Mul,
            OpCode::Div => OpCode::Div,
            OpCode::Mod => OpCode::Mod,
            OpCode::Neg => OpCode::Neg,
            OpCode::Not => OpCode::Not,
            OpCode::And => OpCode::And,
            OpCode::Or => OpCode::Or,
            OpCode::Eq => OpCode::Eq,
            OpCode::Neq => OpCode::Neq,
            OpCode::Lt => OpCode::Lt,
            OpCode::Gt => OpCode::Gt,
            OpCode::Lte => OpCode::Lte,
            OpCode::Gte => OpCode::Gte,
            OpCode::PushInt(operand) => OpCode::PushInt(*operand),
            OpCode::PushFloat(operand) => OpCode::PushFloat(*operand),
            OpCode::PushString(text) => OpCode::PushString(text.clone()),
            OpCode::PushBool(operand) => OpCode::PushBool(*operand),
            OpCode::PushObject => OpCode::PushObject,
            OpCode::PushList => OpCode::PushList,
            OpCode::Function(body) => {
                let mut copy: Vec<OpCode> = Vec::new();
                let mut i: usize = 0;
                while i < body.len()
                    invariant
                        i <= body.len(),
                        copy@.len() == i,
                        forall|j: int| 0 <= j < i ==> copy@[j]@ == body@[j]@,
                        *self == OpCode::Function(*body),
                    decreases body.len() - i,
                {
                    proof {
                        assert(decreases_to!(*self => self->Function_0));
                        vstd::std_specs::vec::axiom_vec_index_decreases(*body, i as int);
                    }
                    let op = body[i].duplicate();
                    copy.push(op);
                    i = i + 1;
                }
                let copy = OpCode::Function(copy);
                assert(copy@->Function_0 =~= self@->Function_0);
                copy
            },
            OpCode::Store(operand) => OpCode::Store(*operand),
            OpCode::Load(operand) => OpCode::Load(*operand),
            OpCode::Jump(operand) => OpCode::Jump(*operand),
            OpCode::JumpIfFalse(operand) => OpCode::JumpIfFalse(*operand),
            OpCode::Call => OpCode::Call,
            OpCode::Return => OpCode::Return,
            OpCode::ListAccess => OpCode::ListAccess,
            OpCode::PropertyLoad => OpCode::PropertyLoad,
            OpCode::Dup => OpCode::Dup,
        }
    }
}

/// A function literal is seen with its body seen instruction by instruction.
pub proof fn lemma_function_view(body: Vec<OpCode>)
    ensures
        OpCode::Function(body)@ == OpView::Function(code_view(body@)),
{
    reveal_with_fuel(<OpCode as View>::view, 2);
    assert(OpCode::Function(body)@->Function_0 =~= code_view(body@));
}

impl Clone for OpCode {
    fn clone(&self) -> (copy: Self)
        ensures
            copy@ == self@,
    {
        self.duplicate()
    }
}

/// A copy of a sequence of instructions, function bodies included.
pub fn duplicate_code(code: &Vec<OpCode>) -> (copy: Vec<OpCode>)
    ensures
        code_view(copy@) == code_view(code@),
{
    let mut copy: Vec<OpCode> = Vec::new();
    let mut i: usize = 0;
    while i < code.len()
        invariant
            i <= code.len(),
            copy@.len() == i,
            forall|j: int| 0 <= j < i ==> copy@[j]@ == code@[j]@,
        decreases code.len() - i,
    {
        let op = code[i].duplicate();
        copy.push(op);
        i = i + 1;
    }
    assert(code_view(copy@) =~= code_view(code@));
    copy
}

} // verus!
