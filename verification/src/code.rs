//! The instruction set of the target machine, and the compilation unit that
//! the lowering engine fills: an instruction stream and a pool of string
//! constants beside it.

use vstd::prelude::*;

verus! {

/// The scratch roles: the only temporaries that lowering uses.
#[derive(Clone, Copy, Debug, PartialEq, Eq, Structural)]
pub enum Slot {
    /// Where a scalar result is left.
    Primary,
    /// Where one operand waits while the other is computed.
    Secondary,
    /// Where the pointer of a fresh array is staged.
    Aggregate,
    /// Where a string or struct result is left.
    Struct,
}

impl Slot {
    /// The name of the storage cell that plays the role.
    pub open spec fn cell(self) -> Seq<char> {
        match self {
            Slot::Primary => "temp"@,
            Slot::Secondary => "temp2"@,
            Slot::Aggregate => "temp3"@,
            Slot::Struct => "temp_struct"@,
        }
    }

    /// The name of the storage cell that plays the role.
    pub fn name(self) -> (text: String)
        ensures
            text@ == self.cell(),
    {
        match self {
            Slot::Primary => String::from_str("temp"),
            Slot::Secondary => String::from_str("temp2"),
            Slot::Aggregate => String::from_str("temp3"),
            Slot::Struct => String::from_str("temp_struct"),
        }
    }
}

/// How a value is held by the machine.
#[derive(Clone, Copy, Debug, PartialEq, Eq, Structural)]
pub enum Repr {
    Scalar,
    Struct,
    Pointer,
    Void,
}

/// The arithmetic operations.
#[derive(Clone, Copy, Debug, PartialEq, Eq, Structural)]
pub enum Arith {
    Add,
    Sub,
    Mul,
    Div,
}

/// The relations that a comparison can test.
#[derive(Clone, Copy, Debug, PartialEq, Eq, Structural)]
pub enum Relation {
    Equal,
    NotEqual,
    Less,
    LessEqual,
    Greater,
    GreaterEqual,
}

/// An operand of an instruction.
#[derive(Debug, PartialEq, Eq)]
pub enum Operand {
    /// A signed immediate.
    Signed(i64),
    /// An unsigned immediate.
    Unsigned(u64),
    /// A name handed over as a value.
    NameValue(String),
    /// The storage cell of that name.
    Ident(String),
    /// The function of that name.
    Name(String),
    /// The storage cell of a scratch role.
    Scratch(Slot),
    /// The pool entry of a string constant.
    Pooled(String),
}

/// The model of an operand.
pub enum OperandView {
    Signed(i64),
    Unsigned(u64),
    NameValue(Seq<char>),
    Ident(Seq<char>),
    Name(Seq<char>),
    Scratch(Slot),
    Pooled(Seq<char>),
}

impl View for Operand {
    type V = OperandView;

    open spec fn view(&self) -> OperandView {
        match self {
            Operand::Signed(value) => OperandView::Signed(*value),
            Operand::Unsigned(value) => OperandView::Unsigned(*value),
            Operand::NameValue(name) => OperandView::NameValue(name@),
            Operand::Ident(name) => OperandView::Ident(name@),
            Operand::Name(name) => OperandView::Name(name@),
            Operand::Scratch(slot) => OperandView::Scratch(*slot),
            Operand::Pooled(text) => OperandView::Pooled(text@),
        }
    }
}

impl Operand {
    /// A copy of the operand.
    pub fn duplicate(&self) -> (copy: Operand)
        ensures
            copy@ == self@,
    {
        match self {
            Operand::Signed(value) => Operand::Signed(*value),
            Operand::Unsigned(value) => Operand::Unsigned(*value),
            Operand::NameValue(name) => Operand::NameValue(name.clone()),
            Operand::Ident(name) => Operand::Ident(name.clone()),
            Operand::Name(name) => Operand::Name(name.clone()),
            Operand::Scratch(slot) => Operand::Scratch(*slot),
            Operand::Pooled(text) => Operand::Pooled(text.clone()),
        }
    }
}

impl Clone for Operand {
    fn clone(&self) -> (copy: Operand)
        ensures
            copy@ == self@,
    {
        self.duplicate()
    }
}

/// A parameter of a function record.
#[derive(Debug, PartialEq, Eq)]
pub struct Param {
    pub name: String,
    pub repr: Repr,
}

/// The model of a parameter.
pub struct ParamView {
    pub name: Seq<char>,
    pub repr: Repr,
}

impl View for Param {
    type V = ParamView;

    open spec fn view(&self) -> ParamView {
        ParamView { name: self.name@, repr: self.repr }
    }
}

/// The models of a parameter list, one for one.
pub open spec fn param_views(params: Seq<Param>) -> Seq<ParamView> {
    Seq::new(params.len(), |i: int| params[i]@)
}

impl Clone for Param {
    fn clone(&self) -> (copy: Param)
        ensures
            copy@ == self@,
    {
        Param { name: self.name.clone(), repr: self.repr }
    }
}

/// A copy of a parameter list.
pub fn duplicate_params(params: &Vec<Param>) -> (copies: Vec<Param>)
    ensures
        param_views(copies@) == param_views(params@),
{
    let mut copies: Vec<Param> = Vec::new();
    let mut i: usize = 0;
    while i < params.len()
        invariant
            i <= params.len(),
            copies.len() == i,
            forall|j: int| 0 <= j < i ==> copies@[j]@ == params@[j]@,
        decreases params.len() - i,
    {
        copies.push(params[i].clone());
        i += 1;
    }
    assert(param_views(copies@) =~= param_views(params@));
    copies
}

/// One operation of the target machine. Jump targets are indices into the
/// children of the scope that holds the jump.
#[derive(Debug, PartialEq, Eq)]
pub enum Instr {
    /// Declares a named storage cell.
    Var(Repr, String),
    /// Copies a value: source, destination.
    Mov(Operand, Operand),
    /// Arithmetic: two sources, destination.
    Arith(Arith, Operand, Operand, Operand),
    /// Comparison: two sources, destination, which receives 0 or 1.
    Compare(Relation, Operand, Operand, Operand),
    /// Allocates a block: cell representation, count, destination of its pointer.
    Alloc(Repr, Operand, Operand),
    /// Stores into a block: source, base, index.
    Pmov(Operand, Operand, Operand),
    /// Loads through an address: address, destination.
    Deref(Operand, Operand),
    /// Pushes a value on the marshaling stack.
    Push(Operand),
    /// Pops the marshaling stack into a destination.
    Pop(Operand),
    /// Calls a function by name, or through the cell that holds its pointer.
    Call(Operand),
    /// Returns a value from the current function.
    Ret(Operand),
    /// Jumps where two values are equal: the values, the target.
    Jeq(Operand, Operand, Operand),
    /// Jumps where two values differ: the values, the target.
    Jne(Operand, Operand, Operand),
    /// Jumps: the target.
    Jmp(Operand),
    /// Groups a run of operations as one indexable block.
    Scope(Vec<Instr>),
    /// Defines a function: name, parameters, result representation, body.
    Function(String, Vec<Param>, Repr, Vec<Instr>),
    /// Splices in the named external unit.
    Import(String),
    /// Does nothing.
    Nop,
}

/// The model of an instruction.
pub enum InstrView {
    Var(Repr, Seq<char>),
    Mov(OperandView, OperandView),
    Arith(Arith, OperandView, OperandView, OperandView),
    Compare(Relation, OperandView, OperandView, OperandView),
    Alloc(Repr, OperandView, OperandView),
    Pmov(OperandView, OperandView, OperandView),
    Deref(OperandView, OperandView),
    Push(OperandView),
    Pop(OperandView),
    Call(OperandView),
    Ret(OperandView),
    Jeq(OperandView, OperandView, OperandView),
    Jne(OperandView, OperandView, OperandView),
    Jmp(OperandView),
    Scope(Seq<InstrView>),
    Function(Seq<char>, Seq<ParamView>, Repr, Seq<InstrView>),
    Import(Seq<char>),
    Nop,
}

/// The models of a run of instructions, one for one.
pub open spec fn instr_views(code: Seq<Instr>) -> Seq<InstrView>
    decreases code,
{
    Seq::new(
        code.len(),
        |i: int|
            if 0 <= i < code.len() {
                code[i].model()
            } else {
                InstrView::Nop
            },
    )
}

impl Instr {
    /// The model of the instruction.
    pub open spec fn model(&self) -> InstrView
        decreases self,
    {
        match self {
            Instr::Var(repr, name) => InstrView::Var(*repr, name@),
            Instr::Mov(source, target) => InstrView::Mov(source@, target@),
            Instr::Arith(op, left, right, target) => InstrView::Arith(
                *op,
                left@,
                right@,
                target@,
            ),
            Instr::Compare(relation, left, right, target) => InstrView::Compare(
                *relation,
                left@,
                right@,
                target@,
            ),
            Instr::Alloc(repr, count, target) => InstrView::Alloc(*repr, count@, target@),
            Instr::Pmov(source, base, index) => InstrView::Pmov(source@, base@, index@),
            Instr::Deref(address, target) => InstrView::Deref(address@, target@),
            Instr::Push(value) => InstrView::Push(value@),
            Instr::Pop(target) => InstrView::Pop(target@),
            Instr::Call(callee) => InstrView::Call(callee@),
            Instr::Ret(value) => InstrView::Ret(value@),
            Instr::Jeq(left, right, target) => InstrView::Jeq(left@, right@, target@),
            Instr::Jne(left, right, target) => InstrView::Jne(left@, right@, target@),
            Instr::Jmp(target) => InstrView::Jmp(target@),
            Instr::Scope(children) => InstrView::Scope(instr_views(children@)),
            Instr::Function(name, params, repr, body) => InstrView::Function(
                name@,
                param_views(params@),
                *repr,
                instr_views(body@),
            ),
            Instr::Import(name) => InstrView::Import(name@),
            Instr::Nop => InstrView::Nop,
        }
    }
}

impl View for Instr {
    type V = InstrView;

    open spec fn view(&self) -> InstrView {
        self.model()
    }
}

impl Instr {
    /// A copy of the instruction and of everything inside it.
    pub fn duplicate(&self) -> (copy: Instr)
        ensures
            copy@ == self@,
        decreases self,
    {
        match self {
            Instr::Var(repr, name) => Instr::Var(*repr, name.clone()),
            Instr::Mov(source, target) => Instr::Mov(source.duplicate(), target.duplicate()),
            Instr::Arith(op, left, right, target) => Instr::Arith(
                *op,
                left.duplicate(),
                right.duplicate(),
                target.duplicate(),
            ),
            Instr::Compare(relation, left, right, target) => Instr::Compare(
                *relation,
                left.duplicate(),
                right.duplicate(),
                target.duplicate(),
            ),
            Instr::Alloc(repr, count, target) => Instr::Alloc(
                *repr,
                count.duplicate(),
                target.duplicate(),
            ),
            Instr::Pmov(source, base, index) => Instr::Pmov(
                source.duplicate(),
                base.duplicate(),
                index.duplicate(),
            ),
            Instr::Deref(address, target) => Instr::Deref(
                address.duplicate(),
                target.duplicate(),
            ),
            Instr::Push(value) => Instr::Push(value.duplicate()),
            Instr::Pop(target) => Instr::Pop(target.duplicate()),
            Instr::Call(callee) => Instr::Call(callee.duplicate()),
            Instr::Ret(value) => Instr::Ret(value.duplicate()),
            Instr::Jeq(left, right, target) => Instr::Jeq(
                left.duplicate(),
                right.duplicate(),
                target.duplicate(),
            ),
            Instr::Jne(left, right, target) => Instr::Jne(
                left.duplicate(),
                right.duplicate(),
                target.duplicate(),
            ),
            Instr::Jmp(target) => Instr::Jmp(target.duplicate()),
            Instr::Scope(children) => Instr::Scope(duplicate_code(children)),
            Instr::Function(name, params, repr, body) => Instr::Function(
                name.clone(),
                duplicate_params(params),
                *repr,
                duplicate_code(body),
            ),
            Instr::Import(name) => Instr::Import(name.clone()),
            Instr::Nop => Instr::Nop,
        }
    }
}

impl Clone for Instr {
    fn clone(&self) -> (copy: Instr)
        ensures
            copy@ == self@,
    {
        self.duplicate()
    }
}

/// A copy of a run of instructions.
pub fn duplicate_code(code: &Vec<Instr>) -> (copies: Vec<Instr>)
    ensures
        instr_views(copies@) == instr_views(code@),
    decreases code,
{
    let mut copies: Vec<Instr> = Vec::new();
    let mut i: usize = 0;
    while i < code.len()
        invariant
            i <= code.len(),
            copies.len() == i,
            forall|j: int| 0 <= j < i ==> copies@[j]@ == code@[j]@,
        decreases code.len() - i,
    {
        copies.push(code[i].duplicate());
        i += 1;
    }
    assert(instr_views(copies@) =~= instr_views(code@));
    copies
}

/// The texts of a run of strings, one for one.
pub open spec fn texts(strings: Seq<String>) -> Seq<Seq<char>> {
    Seq::new(strings.len(), |i: int| strings[i]@)
}

/// The model of a compilation unit.
pub struct UnitView {
    pub code: Seq<InstrView>,
    pub strings: Seq<Seq<char>>,
}

/// A compilation unit under construction. Both parts only ever grow.
pub struct Unit {
    /// The instruction stream.
    pub code: Vec<Instr>,
    /// The pool of string constants, which travels beside the stream.
    pub strings: Vec<String>,
}

impl View for Unit {
    type V = UnitView;

    open spec fn view(&self) -> UnitView {
        UnitView { code: instr_views(self.code@), strings: texts(self.strings@) }
    }
}

impl Unit {
    /// The empty unit.
    pub fn new() -> (unit: Unit)
        ensures
            unit@.code == Seq::<InstrView>::empty(),
            unit@.strings == Seq::<Seq<char>>::empty(),
    {
        let unit = Unit { code: Vec::new(), strings: Vec::new() };
        assert(unit@.code =~= Seq::<InstrView>::empty());
        assert(unit@.strings =~= Seq::<Seq<char>>::empty());
        unit
    }

    /// Appends one instruction to the stream.
    pub fn emit(&mut self, instr: Instr)
        ensures
            final(self)@.code == old(self)@.code.push(instr@),
            final(self)@.strings == old(self)@.strings,
    {
        self.code.push(instr);
        assert(self@.code =~= old(self)@.code.push(instr@));
    }

    /// Appends one string constant to the pool.
    pub fn pool(&mut self, text: String)
        ensures
            final(self)@.code == old(self)@.code,
            final(self)@.strings == old(self)@.strings.push(text@),
    {
        self.strings.push(text);
        assert(self@.strings =~= old(self)@.strings.push(text@));
    }

    /// Appends the string constants of another pool to the pool.
    pub fn adopt(&mut self, strings: Vec<String>)
        ensures
            final(self)@.code == old(self)@.code,
            final(self)@.strings == old(self)@.strings + texts(strings@),
    {
        let mut strings = strings;
        let ghost added = strings@;
        self.strings.append(&mut strings);
        assert(self@.strings =~= old(self)@.strings + texts(added));
    }
}

} // verus!
