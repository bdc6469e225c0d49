//! What lowering yields, as a mathematical function from syntax trees and
//! symbol environments to instruction sequences. The engine is proved to
//! compute exactly this.

use vstd::prelude::*;
use vstd::utf8::encode_utf8;
use crate::code::{Arith, InstrView, OperandView, ParamView, Relation, Repr, Slot, UnitView};
use crate::enums::{ExprView, MType, Operator};
use crate::symbols::{CompileError, Kind, Payload};

verus! {

/// The symbol environment as lowering sees it.
pub type Env = Map<Seq<char>, Kind>;

/// What lowering one node, or a run of nodes, yields.
pub struct Lowered {
    /// The instructions, in order.
    pub code: Seq<InstrView>,
    /// The string constants to pool, in order.
    pub strings: Seq<Seq<char>>,
    /// The environment afterwards.
    pub env: Env,
    /// The scratch slot in which the value is found afterwards.
    pub place: Slot,
}

/// The result of lowering: what it yields, or why the unit is abandoned.
pub type Outcome = Result<Lowered, CompileError>;

/// The callee that builds a string value from a pooled constant.
pub open spec fn string_maker() -> Seq<char> {
    "string.new"@
}

/// The flattened name of a member of an object.
pub open spec fn member_name(object: Seq<char>, member: Seq<char>) -> Seq<char> {
    object + seq!['.'] + member
}

/// The operand of a scratch slot.
pub open spec fn scratch(slot: Slot) -> OperandView {
    OperandView::Scratch(slot)
}

/// How a value of a kind is held.
pub open spec fn repr_of(kind: Kind) -> Repr {
    match kind {
        Kind::String | Kind::Struct => Repr::Struct,
        Kind::Callback => Repr::Pointer,
        Kind::Null => Repr::Void,
        _ => Repr::Scalar,
    }
}

/// The kind that a function's declared result annotation records, if the
/// annotation can be recorded.
pub open spec fn declared_kind(annotation: MType) -> Option<Kind> {
    match annotation {
        MType::Number => Some(Kind::Number),
        MType::String => Some(Kind::String),
        MType::Struct => Some(Kind::Struct),
        MType::Null => Some(Kind::Null),
        MType::Undefined | MType::Function | MType::Class => Some(Kind::Undefined),
        _ => None,
    }
}

/// The kind of a value, inferred from its node: trivial for a literal, by
/// lookup for an identifier and for the callee of a call, number for an array
/// literal, and unresolved for every other shape.
pub open spec fn infer(value: ExprView, env: Env) -> Result<Kind, CompileError> {
    match value {
        ExprView::Number(_) => Ok(Kind::Number),
        ExprView::String(_) => Ok(Kind::String),
        ExprView::Array(_) => Ok(Kind::Number),
        ExprView::Identifier(name) => if env.contains_key(name) {
            Ok(env[name])
        } else {
            Err(CompileError::UnresolvedSymbol)
        },
        ExprView::CallFunc(callee, _) => match *callee {
            ExprView::Identifier(name) => if env.contains_key(name) {
                Ok(env[name])
            } else {
                Err(CompileError::UnresolvedSymbol)
            },
            _ => Err(CompileError::MalformedCallee),
        },
        _ => Err(CompileError::UnresolvedSymbol),
    }
}

/// The kind of a declared name: the annotation's where it gives one, the
/// inferred kind of the value where it leaves the kind open.
pub open spec fn resolve(annotation: MType, value: ExprView, env: Env) -> Result<
    Kind,
    CompileError,
> {
    match annotation {
        MType::Number => Ok(Kind::Number),
        MType::String => Ok(Kind::String),
        MType::Struct => Ok(Kind::Struct),
        MType::Undefined => infer(value, env),
        _ => Err(CompileError::UnsupportedConstruct),
    }
}

/// The kind by which a call of `name` is dispatched and its result retrieved:
/// the recorded one, number where none is recorded.
pub open spec fn callee_kind(name: Seq<char>, env: Env) -> Kind {
    if env.contains_key(name) {
        env[name]
    } else {
        Kind::Number
    }
}

/// The operand of a call: the callee's name, or the cell that holds its
/// pointer where the callee is a callback.
pub open spec fn call_target(name: Seq<char>, env: Env) -> OperandView {
    if callee_kind(name, env).is_callback() {
        OperandView::Ident(name)
    } else {
        OperandView::Name(name)
    }
}

/// The slot in which the result of a callee of a kind is found.
pub open spec fn result_slot(kind: Kind) -> Slot {
    match kind {
        Kind::String | Kind::Struct => Slot::Struct,
        _ => Slot::Primary,
    }
}

/// The instruction that retrieves the result of a callee of a kind: a pop
/// into the slot of the kind, or nothing where the callee hands nothing back.
pub open spec fn retrieve(kind: Kind) -> InstrView {
    match kind {
        Kind::Callback | Kind::Null => InstrView::Nop,
        _ => InstrView::Pop(scratch(result_slot(kind))),
    }
}

/// The call instruction and the retrieval that follows it.
pub open spec fn call_tail(name: Seq<char>, env: Env) -> Seq<InstrView> {
    seq![InstrView::Call(call_target(name, env)), retrieve(callee_kind(name, env))]
}

/// The length operand of a string constant: its length in bytes.
pub open spec fn byte_length(text: Seq<char>) -> OperandView {
    OperandView::Unsigned((encode_utf8(text).len() as usize) as u64)
}

/// The pushes that hand a string constant over: its pool entry, its length.
pub open spec fn string_pushes(text: Seq<char>) -> Seq<InstrView> {
    seq![InstrView::Push(OperandView::Pooled(text)), InstrView::Push(byte_length(text))]
}

/// A string constant as a value: pooled, handed to the string maker, and
/// found where the maker's kind says.
pub open spec fn lower_string_value(text: Seq<char>, env: Env) -> Lowered {
    Lowered {
        code: string_pushes(text) + call_tail(string_maker(), env),
        strings: seq![text],
        env,
        place: result_slot(callee_kind(string_maker(), env)),
    }
}

/// The operand of a node that needs no evaluation: an immediate for a
/// numeric literal, the named cell for an identifier.
pub open spec fn direct_operand(node: ExprView) -> Option<OperandView> {
    match node {
        ExprView::Number(value) => Some(OperandView::Signed(value)),
        ExprView::Identifier(name) => Some(OperandView::Ident(name)),
        _ => None,
    }
}

/// The arithmetic operation of an operator, if it is one.
pub open spec fn arith_of(operator: Operator) -> Option<Arith> {
    match operator {
        Operator::Add => Some(Arith::Add),
        Operator::Subtract => Some(Arith::Sub),
        Operator::Multiply => Some(Arith::Mul),
        Operator::Divide => Some(Arith::Div),
        _ => None,
    }
}

/// The relation of an operator, if it is a comparison.
pub open spec fn relation_of(operator: Operator) -> Option<Relation> {
    match operator {
        Operator::Equality => Some(Relation::Equal),
        Operator::NotEqual => Some(Relation::NotEqual),
        Operator::Lesser => Some(Relation::Less),
        Operator::LesserEqual => Some(Relation::LessEqual),
        Operator::Greater => Some(Relation::Greater),
        Operator::GreaterEqual => Some(Relation::GreaterEqual),
        _ => None,
    }
}

/// The one instruction that combines two operands into the primary slot.
pub open spec fn combine(operator: Operator, left: OperandView, right: OperandView) -> InstrView {
    match arith_of(operator) {
        Some(op) => InstrView::Arith(op, left, right, scratch(Slot::Primary)),
        None => match relation_of(operator) {
            Some(relation) => InstrView::Compare(relation, left, right, scratch(Slot::Primary)),
            None => InstrView::Nop,
        },
    }
}

/// The representation of a parameter and the kind that its name records, by
/// its annotation.
pub open spec fn param_shape(annotation: MType) -> (Repr, Option<Kind>) {
    match annotation {
        MType::Number => (Repr::Scalar, None),
        MType::String | MType::Struct => (Repr::Struct, None),
        MType::Function => (Repr::Pointer, Some(Kind::Callback)),
        MType::Undefined => (Repr::Void, None),
        MType::Nested(_, payload) => match *payload {
            MType::String => (Repr::Struct, Some(Kind::CallbackOf(Payload::String))),
            MType::Struct => (Repr::Struct, Some(Kind::CallbackOf(Payload::Struct))),
            MType::Function => (Repr::Pointer, Some(Kind::CallbackOf(Payload::Callback))),
            _ => (Repr::Scalar, Some(Kind::CallbackOf(Payload::Number))),
        },
        _ => (Repr::Scalar, None),
    }
}

/// The environment after a parameter has been taken in.
pub open spec fn with_param(env: Env, name: Seq<char>, annotation: MType) -> Env {
    match param_shape(annotation).1 {
        Some(kind) => env.insert(name, kind),
        None => env,
    }
}

/// The calling-convention slots of a parameter list from `from` on, and the
/// environment after them. Every entry has to be a parameter.
pub open spec fn lower_params(params: Seq<ExprView>, from: int, env: Env) -> Result<
    (Seq<ParamView>, Env),
    CompileError,
>
    decreases params.len() - from,
{
    if from < 0 || from >= params.len() {
        Ok((Seq::empty(), env))
    } else {
        match params[from] {
            ExprView::Parameter(name, annotation) => match lower_params(
                params,
                from + 1,
                with_param(env, name, annotation),
            ) {
                Ok((rest, after)) => Ok(
                    (
                        seq![ParamView { name, repr: param_shape(annotation).0 }] + rest,
                        after,
                    ),
                ),
                Err(error) => Err(error),
            },
            _ => Err(CompileError::UnsupportedConstruct),
        }
    }
}

/// The two-way layout of a conditional, as the children of one scope: a jump
/// over the first branch where the condition does not hold, the first branch,
/// a jump to the exit, the second branch.
pub open spec fn branch_layout(first: Seq<InstrView>, second: Seq<InstrView>) -> Seq<InstrView> {
    seq![
        InstrView::Jne(scratch(Slot::Primary), OperandView::Signed(1), OperandView::Signed(3)),
        InstrView::Scope(first),
        InstrView::Jmp(OperandView::Signed(4)),
        InstrView::Scope(second),
    ]
}

/// The layout of a loop, as the children of one scope: the condition, a jump
/// to the exit where it does not hold, the body, a jump back to the condition.
pub open spec fn loop_layout(
    condition: Seq<InstrView>,
    body: Seq<InstrView>,
) -> Seq<InstrView> {
    seq![
        InstrView::Scope(condition),
        InstrView::Jne(scratch(Slot::Primary), OperandView::Signed(1), OperandView::Signed(4)),
        InstrView::Scope(body),
        InstrView::Jmp(OperandView::Signed(0)),
    ]
}

/// Whether a unit and an environment are what they were plus what lowering
/// yields.
pub open spec fn extends(
    made: Lowered,
    before: UnitView,
    after: UnitView,
    env_after: Env,
) -> bool {
    &&& after.code == before.code + made.code
    &&& after.strings == before.strings + made.strings
    &&& env_after == made.env
}

/// One run of instructions that leaves its value in the primary slot, with
/// nothing pooled and the environment as it was.
pub open spec fn plain(code: Seq<InstrView>, env: Env) -> Outcome {
    Ok(Lowered { code, strings: Seq::empty(), env, place: Slot::Primary })
}

/// What is yielded with one more instruction at the end.
pub open spec fn finish(made: Lowered, instr: InstrView) -> Lowered {
    Lowered { code: made.code.push(instr), place: Slot::Primary, ..made }
}

/// What two steps yield one after the other, where the second step succeeds.
pub open spec fn join(head: Lowered, tail: Outcome) -> Outcome {
    match tail {
        Ok(tail) => Ok(
            Lowered {
                code: head.code + tail.code,
                strings: head.strings + tail.strings,
                env: tail.env,
                place: Slot::Primary,
            },
        ),
        Err(error) => Err(error),
    }
}

/// The lowering of a run of statements from `from` on, one after the other.
pub open spec fn lower_block(items: Seq<ExprView>, from: int, env: Env) -> Outcome
    decreases items, items.len() - from,
{
    if from < 0 || from >= items.len() {
        plain(Seq::empty(), env)
    } else {
        match lower_node(items[from], env) {
            Ok(head) => join(head, lower_block(items, from + 1, head.env)),
            Err(error) => Err(error),
        }
    }
}

/// The lowering of one argument of a call: an immediate or a plain
/// identifier is pushed as it is, a string constant as its pool entry and
/// length, a function declared in place by its name, and every other
/// argument from the slot in which its lowering leaves it.
pub open spec fn lower_arg(arg: ExprView, env: Env) -> Outcome
    decreases arg, 2int,
{
    match arg {
        ExprView::Number(value) => plain(seq![InstrView::Push(OperandView::Signed(value))], env),
        ExprView::Identifier(name) => plain(
            seq![InstrView::Push(OperandView::NameValue(name))],
            env,
        ),
        ExprView::String(_) => lower_node(arg, env),
        ExprView::DecFunc(name, _, _, _) => match lower_node(arg, env) {
            Ok(made) => Ok(finish(made, InstrView::Push(OperandView::Name(name)))),
            Err(error) => Err(error),
        },
        _ => match lower_node(arg, env) {
            Ok(made) => Ok(finish(made, InstrView::Push(scratch(made.place)))),
            Err(error) => Err(error),
        },
    }
}

/// The lowering of the arguments of a call from `from` on, left to right.
pub open spec fn lower_args(args: Seq<ExprView>, from: int, env: Env) -> Outcome
    decreases args, args.len() - from,
{
    if from < 0 || from >= args.len() {
        plain(Seq::empty(), env)
    } else {
        match lower_arg(args[from], env) {
            Ok(head) => join(head, lower_args(args, from + 1, head.env)),
            Err(error) => Err(error),
        }
    }
}

/// The lowering of a call of `name`: the arguments, the call, and the
/// retrieval of the result by the callee's kind after the arguments.
pub open spec fn lower_call(name: Seq<char>, args: Seq<ExprView>, env: Env) -> Outcome
    decreases args, args.len() + 1,
{
    match lower_args(args, 0, env) {
        Ok(pushed) => Ok(
            Lowered {
                code: pushed.code + call_tail(name, pushed.env),
                strings: pushed.strings,
                env: pushed.env,
                place: result_slot(callee_kind(name, pushed.env)),
            },
        ),
        Err(error) => Err(error),
    }
}

/// The store that fills cell `at` of a fresh array: an immediate or a plain
/// identifier goes into the cell directly, every other element from the slot
/// in which its lowering leaves it.
pub open spec fn lower_element(item: ExprView, at: int, env: Env) -> Outcome
    decreases item, 2int,
{
    let index = OperandView::Signed(at as i64);
    match direct_operand(item) {
        Some(operand) => plain(
            seq![InstrView::Pmov(operand, scratch(Slot::Aggregate), index)],
            env,
        ),
        None => match lower_node(item, env) {
            Ok(made) => Ok(
                finish(made, InstrView::Pmov(scratch(made.place), scratch(Slot::Aggregate), index)),
            ),
            Err(error) => Err(error),
        },
    }
}

/// The stores that fill a fresh array from cell `from` on.
pub open spec fn lower_elements(items: Seq<ExprView>, from: int, env: Env) -> Outcome
    decreases items, items.len() - from,
{
    if from < 0 || from >= items.len() {
        plain(Seq::empty(), env)
    } else {
        match lower_element(items[from], from, env) {
            Ok(head) => join(head, lower_elements(items, from + 1, head.env)),
            Err(error) => Err(error),
        }
    }
}

/// The lowering of an array literal: a block of as many scalar cells as it
/// has elements is allocated into the aggregate slot and filled cell by cell,
/// and its pointer is copied to the primary slot.
pub open spec fn lower_array(items: Seq<ExprView>, env: Env) -> Outcome
    decreases items, items.len() + 1,
{
    if items.len() > i64::MAX {
        Err(CompileError::UnsupportedConstruct)
    } else {
        match lower_elements(items, 0, env) {
            Ok(filled) => Ok(
                Lowered {
                    code: seq![
                        InstrView::Alloc(
                            Repr::Scalar,
                            OperandView::Signed(items.len() as i64),
                            scratch(Slot::Aggregate),
                        ),
                    ] + filled.code + seq![
                        InstrView::Mov(scratch(Slot::Aggregate), scratch(Slot::Primary)),
                    ],
                    ..filled
                },
            ),
            Err(error) => Err(error),
        }
    }
}

/// The lowering of an operand that needs evaluation: a string constant
/// becomes a string value, every other node is lowered as it stands.
pub open spec fn lower_operand(node: ExprView, env: Env) -> Outcome
    decreases node, 2int,
{
    match node {
        ExprView::String(text) => Ok(lower_string_value(text, env)),
        _ => lower_node(node, env),
    }
}

/// The lowering of a value that is moved into a name: nothing for a direct
/// operand, the lowering of the operand otherwise. Together with the operand
/// in which the value is then found.
pub open spec fn lower_value(node: ExprView, env: Env) -> Result<
    (Lowered, OperandView),
    CompileError,
>
    decreases node, 3int,
{
    match direct_operand(node) {
        Some(operand) => Ok(
            (
                Lowered { code: Seq::empty(), strings: Seq::empty(), env, place: Slot::Primary },
                operand,
            ),
        ),
        None => match lower_operand(node, env) {
            Ok(made) => Ok((made, scratch(made.place))),
            Err(error) => Err(error),
        },
    }
}

/// The lowering of a declaration: the cell of the name is created by the
/// resolved kind, the value is lowered and moved into it, and the kind is
/// recorded for the name.
pub open spec fn lower_declaration(node: ExprView, env: Env) -> Outcome
    decreases node, 0int,
{
    match node {
        ExprView::BinOp(Operator::Declare(annotation), target, value) => match *target {
            ExprView::Identifier(name) => match resolve(annotation, *value, env) {
                Ok(kind) => match lower_value(*value, env) {
                    Ok((made, operand)) => Ok(
                        Lowered {
                            code: seq![InstrView::Var(repr_of(kind), name)] + made.code.push(
                                InstrView::Mov(operand, OperandView::Ident(name)),
                            ),
                            strings: made.strings,
                            env: made.env.insert(name, kind),
                            place: Slot::Primary,
                        },
                    ),
                    Err(error) => Err(error),
                },
                Err(error) => Err(error),
            },
            _ => Err(CompileError::InvalidDeclarationTarget),
        },
        _ => Err(CompileError::UnsupportedConstruct),
    }
}

/// The lowering of an assignment: the value is lowered and moved into the
/// name.
pub open spec fn lower_assignment(node: ExprView, env: Env) -> Outcome
    decreases node, 0int,
{
    match node {
        ExprView::BinOp(Operator::Assign, target, value) => match *target {
            ExprView::Identifier(name) => match lower_value(*value, env) {
                Ok((made, operand)) => Ok(
                    finish(made, InstrView::Mov(operand, OperandView::Ident(name))),
                ),
                Err(error) => Err(error),
            },
            _ => Err(CompileError::InvalidAssignmentTarget),
        },
        _ => Err(CompileError::UnsupportedConstruct),
    }
}

/// The lowering of an arithmetic operation or a comparison, by the shapes of
/// the operands: two direct operands are combined by one instruction; one
/// direct operand is combined with the other side's result where that was
/// left; with two sides to evaluate, the left result waits in the secondary
/// slot while the right side is computed. A string constant cannot stand on
/// the left.
pub open spec fn lower_combination(node: ExprView, env: Env) -> Outcome
    decreases node, 0int,
{
    match node {
        ExprView::BinOp(operator, left, right) => match (
            direct_operand(*left),
            direct_operand(*right),
        ) {
            (Some(first), Some(second)) => plain(seq![combine(operator, first, second)], env),
            (Some(first), None) => match lower_operand(*right, env) {
                Ok(made) => Ok(finish(made, combine(operator, first, scratch(made.place)))),
                Err(error) => Err(error),
            },
            (None, Some(second)) => if *left is String {
                Err(CompileError::UnsupportedConstruct)
            } else {
                match lower_node(*left, env) {
                    Ok(made) => Ok(finish(made, combine(operator, scratch(made.place), second))),
                    Err(error) => Err(error),
                }
            },
            (None, None) => if *left is String {
                Err(CompileError::UnsupportedConstruct)
            } else {
                match lower_node(*left, env) {
                    Ok(first) => match lower_operand(*right, first.env) {
                        Ok(second) => join(
                            finish(
                                first,
                                InstrView::Mov(scratch(first.place), scratch(Slot::Secondary)),
                            ),
                            Ok(
                                finish(
                                    second,
                                    combine(
                                        operator,
                                        scratch(Slot::Secondary),
                                        scratch(second.place),
                                    ),
                                ),
                            ),
                        ),
                        Err(error) => Err(error),
                    },
                    Err(error) => Err(error),
                }
            },
        },
        _ => Err(CompileError::UnsupportedConstruct),
    }
}

/// The load through a base at an index: the sum of the two is formed in the
/// primary slot and dereferenced in place.
pub open spec fn load_through(base: OperandView, index: OperandView) -> Seq<InstrView> {
    seq![
        InstrView::Arith(Arith::Add, base, index, scratch(Slot::Primary)),
        InstrView::Deref(scratch(Slot::Primary), scratch(Slot::Primary)),
    ]
}

/// The lowering of an array access: the index is lowered into the primary
/// slot, and the element is loaded through the named base.
pub open spec fn lower_index(node: ExprView, env: Env) -> Outcome
    decreases node, 0int,
{
    match node {
        ExprView::ArrayAccess(name, index) => match lower_node(*index, env) {
            Ok(made) => Ok(
                Lowered {
                    code: made.code + load_through(
                        OperandView::Ident(name),
                        scratch(Slot::Primary),
                    ),
                    place: Slot::Primary,
                    ..made
                },
            ),
            Err(error) => Err(error),
        },
        _ => Err(CompileError::UnsupportedConstruct),
    }
}

/// The lowering of a property access on the object `object`: a plain member
/// is read by its flattened name, a call member is a call of the flattened
/// name, and an indexed member is loaded through the flattened name at a
/// literal index.
pub open spec fn lower_member(object: Seq<char>, member: ExprView, env: Env) -> Outcome
    decreases member, 0int,
{
    match member {
        ExprView::Identifier(name) => plain(
            seq![
                InstrView::Mov(
                    OperandView::Ident(member_name(object, name)),
                    scratch(Slot::Primary),
                ),
            ],
            env,
        ),
        ExprView::CallFunc(callee, args) => match *callee {
            ExprView::Identifier(name) => lower_call(member_name(object, name), args, env),
            _ => Err(CompileError::MalformedCallee),
        },
        ExprView::ArrayAccess(name, index) => match *index {
            ExprView::Number(at) => plain(
                load_through(
                    OperandView::Ident(member_name(object, name)),
                    OperandView::Signed(at),
                ),
                env,
            ),
            _ => Err(CompileError::UnsupportedConstruct),
        },
        _ => Err(CompileError::UnsupportedConstruct),
    }
}

/// The lowering of a function declaration: the parameters are taken in, the
/// body is lowered into a stream of its own that starts with the declaration
/// of its primary slot, the string constants of the body join the enclosing
/// unit's, and the name is recorded with the declared kind once the body is
/// done.
pub open spec fn lower_function(node: ExprView, env: Env) -> Outcome
    decreases node, 0int,
{
    match node {
        ExprView::DecFunc(name, params, body, annotation) => match lower_params(params, 0, env) {
            Ok((slots, inside)) => match lower_block(body, 0, inside) {
                Ok(made) => match declared_kind(annotation) {
                    Some(kind) => Ok(
                        Lowered {
                            code: seq![
                                InstrView::Function(
                                    name,
                                    slots,
                                    Repr::Scalar,
                                    seq![InstrView::Var(Repr::Scalar, Slot::Primary.cell())]
                                        + made.code,
                                ),
                            ],
                            strings: made.strings,
                            env: made.env.insert(name, kind),
                            place: Slot::Primary,
                        },
                    ),
                    None => Err(CompileError::UnsupportedConstruct),
                },
                Err(error) => Err(error),
            },
            Err(error) => Err(error),
        },
        _ => Err(CompileError::UnsupportedConstruct),
    }
}

/// The lowering of a conditional: the condition is lowered into the primary
/// slot, and one scope follows that holds the two branches in the two-way
/// layout. Each branch is a stream of its own; the string constants that it
/// names join the unit's pool, after those of the condition.
pub open spec fn lower_conditional(node: ExprView, env: Env) -> Outcome
    decreases node, 0int,
{
    match node {
        ExprView::If(condition, first, second) => match lower_node(*condition, env) {
            Ok(tested) => match lower_block(first, 0, tested.env) {
                Ok(taken) => match lower_block(second, 0, taken.env) {
                    Ok(other) => Ok(
                        Lowered {
                            code: tested.code.push(
                                InstrView::Scope(branch_layout(taken.code, other.code)),
                            ),
                            strings: tested.strings + taken.strings + other.strings,
                            env: other.env,
                            place: Slot::Primary,
                        },
                    ),
                    Err(error) => Err(error),
                },
                Err(error) => Err(error),
            },
            Err(error) => Err(error),
        },
        _ => Err(CompileError::UnsupportedConstruct),
    }
}

/// The lowering of a loop: one scope that holds the condition and the body
/// in the loop layout. Each of the two is a stream of its own; the string
/// constants that they name join the unit's pool, the condition's first.
pub open spec fn lower_loop(node: ExprView, env: Env) -> Outcome
    decreases node, 0int,
{
    match node {
        ExprView::While(condition, body) => match lower_node(*condition, env) {
            Ok(tested) => match lower_block(body, 0, tested.env) {
                Ok(made) => Ok(
                    Lowered {
                        code: seq![InstrView::Scope(loop_layout(tested.code, made.code))],
                        strings: tested.strings + made.strings,
                        env: made.env,
                        place: Slot::Primary,
                    },
                ),
                Err(error) => Err(error),
            },
            Err(error) => Err(error),
        },
        _ => Err(CompileError::UnsupportedConstruct),
    }
}

/// The lowering of a return: the value is lowered, and the primary slot is
/// returned.
pub open spec fn lower_return(node: ExprView, env: Env) -> Outcome
    decreases node, 0int,
{
    match node {
        ExprView::Return(value) => match lower_node(*value, env) {
            Ok(made) => Ok(finish(made, InstrView::Ret(scratch(Slot::Primary)))),
            Err(error) => Err(error),
        },
        _ => Err(CompileError::UnsupportedConstruct),
    }
}

/// The lowering of one node, by its kind. A literal number and an identifier
/// are moved to the primary slot; a string constant is pooled and pushed; a
/// module inclusion, of either spelling, is one instruction; the empty
/// statement does nothing. A node of a kind that has no rule of its own (a
/// for loop, a class, a parameter, an end marker) is unsupported, and so is a
/// property access on anything but a name; the callee of a call has to be a
/// name.
pub open spec fn lower_node(node: ExprView, env: Env) -> Outcome
    decreases node, 1int,
{
    match node {
        ExprView::BinOp(Operator::Declare(_), _, _) => lower_declaration(node, env),
        ExprView::BinOp(Operator::Assign, _, _) => lower_assignment(node, env),
        ExprView::BinOp(_, _, _) => lower_combination(node, env),
        ExprView::Number(value) => plain(
            seq![InstrView::Mov(OperandView::Signed(value), scratch(Slot::Primary))],
            env,
        ),
        ExprView::Identifier(name) => plain(
            seq![InstrView::Mov(OperandView::Ident(name), scratch(Slot::Primary))],
            env,
        ),
        ExprView::String(text) => Ok(
            Lowered { code: string_pushes(text), strings: seq![text], env, place: Slot::Primary },
        ),
        ExprView::Array(items) => lower_array(items, env),
        ExprView::ArrayAccess(_, _) => lower_index(node, env),
        ExprView::PropertyAccess(object, member) => match *object {
            ExprView::Identifier(name) => lower_member(name, *member, env),
            _ => Err(CompileError::UnsupportedConstruct),
        },
        ExprView::CallFunc(callee, args) => match *callee {
            ExprView::Identifier(name) => lower_call(name, args, env),
            _ => Err(CompileError::MalformedCallee),
        },
        ExprView::DecFunc(_, _, _, _) => lower_function(node, env),
        ExprView::If(_, _, _) => lower_conditional(node, env),
        ExprView::While(_, _) => lower_loop(node, env),
        ExprView::Return(_) => lower_return(node, env),
        ExprView::Import(name) => plain(seq![InstrView::Import(name)], env),
        ExprView::Include(name) => plain(seq![InstrView::Import(name)], env),
        ExprView::Pass => plain(seq![InstrView::Nop], env),
        _ => Err(CompileError::UnsupportedConstruct),
    }
}

/// The lowering of a whole syntax tree under an environment.
pub open spec fn lowering(ast: Seq<ExprView>, env: Env) -> Outcome {
    lower_block(ast, 0, env)
}

/// Whether a run of steps is under way as lowering says: what has been
/// appended so far, followed by what the remaining steps yield, is what the
/// whole run yields; or the remaining steps fail as the whole run does.
pub open spec fn under_way(
    whole: Outcome,
    rest: Outcome,
    start: UnitView,
    now: UnitView,
) -> bool {
    match rest {
        Ok(rest) => whole is Ok && start.code + whole->Ok_0.code == now.code + rest.code
            && start.strings + whole->Ok_0.strings == now.strings + rest.strings
            && whole->Ok_0.env == rest.env && whole->Ok_0.place == Slot::Primary,
        Err(error) => whole == Err::<Lowered, CompileError>(error),
    }
}

/// A run that is under way stays so over one more step.
pub proof fn lemma_step(
    whole: Outcome,
    head: Lowered,
    rest: Outcome,
    start: UnitView,
    before: UnitView,
    after: UnitView,
)
    requires
        under_way(whole, join(head, rest), start, before),
        after.code == before.code + head.code,
        after.strings == before.strings + head.strings,
    ensures
        under_way(whole, rest, start, after),
{
    match rest {
        Ok(rest) => {
            assert(after.code + rest.code =~= before.code + (head.code + rest.code));
            assert(after.strings + rest.strings =~= before.strings + (head.strings
                + rest.strings));
        },
        Err(_) => {},
    }
}

/// A run starts under way, and a run that has no steps left has been carried
/// out in full.
pub proof fn lemma_run(whole: Outcome, start: UnitView, now: UnitView, env: Env)
    ensures
        under_way(whole, whole, start, start) <==> (whole is Ok ==> whole->Ok_0.place
            == Slot::Primary),
        under_way(whole, plain(Seq::empty(), env), start, now) ==> whole is Ok && extends(
            whole->Ok_0,
            start,
            now,
            env,
        ),
{
    if under_way(whole, plain(Seq::empty(), env), start, now) {
        assert(now.code + Seq::<InstrView>::empty() =~= now.code);
        assert(now.strings + Seq::<Seq<char>>::empty() =~= now.strings);
    }
}

/// One emitted instruction extends a unit by a run of one.
pub proof fn lemma_one(before: UnitView, after: UnitView, instr: InstrView)
    requires
        after.code == before.code.push(instr),
        after.strings == before.strings,
    ensures
        after.code == before.code + seq![instr],
        after.strings == before.strings + Seq::<Seq<char>>::empty(),
{
    assert(after.code =~= before.code + seq![instr]);
    assert(after.strings =~= before.strings + Seq::<Seq<char>>::empty());
}

/// What was yielded and then finished with one instruction extends a unit
/// as the two together.
pub proof fn lemma_finish(
    made: Lowered,
    instr: InstrView,
    before: UnitView,
    mid: UnitView,
    after: UnitView,
)
    requires
        mid.code == before.code + made.code,
        mid.strings == before.strings + made.strings,
        after.code == mid.code.push(instr),
        after.strings == mid.strings,
    ensures
        after.code == before.code + finish(made, instr).code,
        after.strings == before.strings + finish(made, instr).strings,
{
    assert(after.code =~= before.code + made.code.push(instr));
}

} // verus!
