//! The lowering engine: one left-to-right pass over the syntax tree, which
//! appends to a compilation unit and consults and extends the symbol
//! environment.

use vstd::prelude::*;
use crate::code::{
    instr_views, param_views, Arith, Instr, InstrView, Operand, OperandView, Param, ParamView,
    Relation, Repr, Slot, Unit,
};
use crate::enums::{expr_views, lemma_expr_views, Expr, ExprView, MType, Operator};
use crate::lowering::{
    branch_layout, call_tail, callee_kind, combine, declared_kind, direct_operand, extends, infer,
    lemma_finish, lemma_one, lemma_run, lemma_step, load_through, loop_layout, lower_arg,
    lower_args, lower_array, lower_assignment, lower_block, lower_call, lower_combination,
    lower_conditional, lower_declaration, lower_element, lower_elements, lower_function,
    lower_index, lower_loop, lower_member, lower_node, lower_operand, lower_params, lower_return,
    lower_string_value, lower_value, lowering, member_name, param_shape, repr_of, resolve,
    result_slot, scratch, string_pushes, under_way, Env, Outcome,
};
use crate::symbols::{CompileError, Kind, Payload, SymbolTable};

verus! {

/// Whether a step of the engine did what lowering says: on success the value
/// is where lowering leaves it, and the unit and the environment are what
/// they were plus what lowering yields; on failure the error is lowering's.
pub open spec fn carried_out(
    outcome: Outcome,
    result: Result<Slot, CompileError>,
    before: &Unit,
    after: &Unit,
    state: &SymbolTable,
) -> bool {
    match outcome {
        Ok(made) => result == Ok::<Slot, CompileError>(made.place) && extends(
            made,
            before@,
            after@,
            state@,
        ),
        Err(error) => result == Err::<Slot, CompileError>(error),
    }
}

/// The kind of a value, inferred from its node: trivial for a literal, by
/// lookup for an identifier and for the callee of a call, number for an array
/// literal, and `UnresolvedSymbol` for every other shape.
pub fn infer_type(expr: &Expr, state: &SymbolTable) -> (kind: Result<Kind, CompileError>)
    ensures
        kind == infer(expr@, state@),
{
    proof {
        reveal_with_fuel(Expr::model, 2);
    }
    match expr {
        Expr::Number(_) => Ok(Kind::Number),
        Expr::String(_) => Ok(Kind::String),
        Expr::Array(_) => Ok(Kind::Number),
        Expr::Identifier(name) => state.lookup(name),
        Expr::CallFunc(callee, _) => match &**callee {
            Expr::Identifier(name) => state.lookup(name),
            _ => Err(CompileError::MalformedCallee),
        },
        _ => Err(CompileError::UnresolvedSymbol),
    }
}

/// The kind of a declared name.
fn resolve_kind(annotation: &MType, value: &Expr, state: &SymbolTable) -> (kind: Result<
    Kind,
    CompileError,
>)
    ensures
        kind == resolve(*annotation, value@, state@),
{
    match annotation {
        MType::Number => Ok(Kind::Number),
        MType::String => Ok(Kind::String),
        MType::Struct => Ok(Kind::Struct),
        MType::Undefined => infer_type(value, state),
        _ => Err(CompileError::UnsupportedConstruct),
    }
}

/// How a value of a kind is held.
fn representation(kind: Kind) -> (repr: Repr)
    ensures
        repr == repr_of(kind),
{
    match kind {
        Kind::String => Repr::Struct,
        Kind::Struct => Repr::Struct,
        Kind::Callback => Repr::Pointer,
        Kind::Null => Repr::Void,
        _ => Repr::Scalar,
    }
}

/// The operand of a node that needs no evaluation.
fn direct(node: &Expr) -> (operand: Option<Operand>)
    ensures
        match direct_operand(node@) {
            Some(expected) => operand is Some && operand->Some_0@ == expected,
            None => operand is None,
        },
{
    match node {
        Expr::Number(value) => Some(Operand::Signed(*value)),
        Expr::Identifier(name) => Some(Operand::Ident(name.clone())),
        _ => None,
    }
}

/// The one instruction that combines two operands into the primary slot.
fn combined(operator: &Operator, left: Operand, right: Operand) -> (instr: Instr)
    ensures
        instr@ == combine(*operator, left@, right@),
{
    let target = Operand::Scratch(Slot::Primary);
    match operator {
        Operator::Add => Instr::Arith(Arith::Add, left, right, target),
        Operator::Subtract => Instr::Arith(Arith::Sub, left, right, target),
        Operator::Multiply => Instr::Arith(Arith::Mul, left, right, target),
        Operator::Divide => Instr::Arith(Arith::Div, left, right, target),
        Operator::Equality => Instr::Compare(Relation::Equal, left, right, target),
        Operator::NotEqual => Instr::Compare(Relation::NotEqual, left, right, target),
        Operator::Lesser => Instr::Compare(Relation::Less, left, right, target),
        Operator::LesserEqual => Instr::Compare(Relation::LessEqual, left, right, target),
        Operator::Greater => Instr::Compare(Relation::Greater, left, right, target),
        Operator::GreaterEqual => Instr::Compare(Relation::GreaterEqual, left, right, target),
        _ => Instr::Nop,
    }
}

/// The flattened name of a member of an object.
fn flattened(object: &String, member: &String) -> (name: String)
    ensures
        name@ == member_name(object@, member@),
{
    let mut name = object.clone();
    name.append(".");
    name.append(member.as_str());
    proof {
        reveal_strlit(".");
        assert("."@ =~= seq!['.']);
    }
    name
}

/// Emits one instruction that leaves its value in the primary slot.
fn emit_plain(instr: Instr, unit: &mut Unit) -> (place: Slot)
    ensures
        final(unit)@.code == old(unit)@.code + seq![instr@],
        final(unit)@.strings == old(unit)@.strings + Seq::<Seq<char>>::empty(),
        place == Slot::Primary,
{
    unit.emit(instr);
    proof {
        lemma_one(old(unit)@, unit@, instr@);
    }
    Slot::Primary
}

/// Emits the call of `name` and the retrieval of its result.
fn emit_call(name: String, unit: &mut Unit, state: &SymbolTable) -> (place: Slot)
    ensures
        final(unit)@.code == old(unit)@.code + call_tail(name@, state@),
        final(unit)@.strings == old(unit)@.strings,
        place == result_slot(callee_kind(name@, state@)),
{
    let kind = match state.find(&name) {
        Some(kind) => kind,
        None => Kind::Number,
    };
    let target = if kind.holds_pointer() {
        Operand::Ident(name)
    } else {
        Operand::Name(name)
    };
    unit.emit(Instr::Call(target));
    let place = match kind {
        Kind::String => Slot::Struct,
        Kind::Struct => Slot::Struct,
        _ => Slot::Primary,
    };
    match kind {
        Kind::Callback => unit.emit(Instr::Nop),
        Kind::Null => unit.emit(Instr::Nop),
        _ => unit.emit(Instr::Pop(Operand::Scratch(place))),
    }
    assert(unit@.code =~= old(unit)@.code + call_tail(name@, state@));
    place
}

/// Pools a string constant and emits the pushes that hand it over.
fn emit_string(text: &String, unit: &mut Unit)
    ensures
        final(unit)@.code == old(unit)@.code + string_pushes(text@),
        final(unit)@.strings == old(unit)@.strings + seq![text@],
{
    unit.pool(text.clone());
    unit.emit(Instr::Push(Operand::Pooled(text.clone())));
    unit.emit(Instr::Push(Operand::Unsigned(text.as_str().len() as u64)));
    assert(unit@.code =~= old(unit)@.code + string_pushes(text@));
    assert(unit@.strings =~= old(unit)@.strings + seq![text@]);
}

/// Lowers a string constant as a value.
fn eval_string_value(text: &String, unit: &mut Unit, state: &SymbolTable) -> (place: Slot)
    ensures
        extends(lower_string_value(text@, state@), old(unit)@, final(unit)@, state@),
        place == lower_string_value(text@, state@).place,
{
    emit_string(text, unit);
    let place = emit_call(String::from_str("string.new"), unit, state);
    assert(unit@.code =~= old(unit)@.code + lower_string_value(text@, state@).code);
    place
}

/// The representation of a parameter and the kind that its name records.
fn shape_of(annotation: &MType) -> (shape: (Repr, Option<Kind>))
    ensures
        shape == param_shape(*annotation),
{
    match annotation {
        MType::Number => (Repr::Scalar, None),
        MType::String => (Repr::Struct, None),
        MType::Struct => (Repr::Struct, None),
        MType::Function => (Repr::Pointer, Some(Kind::Callback)),
        MType::Undefined => (Repr::Void, None),
        MType::Nested(_, payload) => match &**payload {
            MType::String => (Repr::Struct, Some(Kind::CallbackOf(Payload::String))),
            MType::Struct => (Repr::Struct, Some(Kind::CallbackOf(Payload::Struct))),
            MType::Function => (Repr::Pointer, Some(Kind::CallbackOf(Payload::Callback))),
            _ => (Repr::Scalar, Some(Kind::CallbackOf(Payload::Number))),
        },
        _ => (Repr::Scalar, None),
    }
}

/// The kind that a function's declared result annotation records.
fn kind_of_result(annotation: &MType) -> (kind: Option<Kind>)
    ensures
        kind == declared_kind(*annotation),
{
    match annotation {
        MType::Number => Some(Kind::Number),
        MType::String => Some(Kind::String),
        MType::Struct => Some(Kind::Struct),
        MType::Null => Some(Kind::Null),
        MType::Undefined => Some(Kind::Undefined),
        MType::Function => Some(Kind::Undefined),
        MType::Class => Some(Kind::Undefined),
        _ => None,
    }
}

/// Takes in the parameters of a function declaration: their calling-convention
/// slots, and the callbacks among them recorded under their names.
fn eval_params(params: &Vec<Expr>, state: &mut SymbolTable) -> (slots: Result<
    Vec<Param>,
    CompileError,
>)
    ensures
        match lower_params(expr_views(params@), 0, old(state)@) {
            Ok((expected, after)) => slots is Ok && param_views(slots->Ok_0@) == expected
                && final(state)@ == after,
            Err(error) => slots == Err::<Vec<Param>, CompileError>(error),
        },
{
    let ghost views = expr_views(params@);
    let ghost whole = lower_params(views, 0, state@);
    let mut slots: Vec<Param> = Vec::new();
    let mut i: usize = 0;
    proof {
        lemma_expr_views(params@);
        match whole {
            Ok((rest, _)) => {
                assert(param_views(slots@) + rest =~= rest);
            },
            Err(_) => {},
        }
    }
    while i < params.len()
        invariant
            i <= params.len(),
            views == expr_views(params@),
            views.len() == params.len(),
            forall|j: int| 0 <= j < params.len() ==> #[trigger] views[j] == params@[j]@,
            whole == lower_params(views, 0, old(state)@),
            match lower_params(views, i as int, state@) {
                Ok((rest, after)) => whole is Ok && whole->Ok_0.0 == param_views(slots@) + rest
                    && whole->Ok_0.1 == after,
                Err(error) => whole == Err::<(Seq<ParamView>, Env), CompileError>(error),
            },
        decreases params.len() - i,
    {
        assert(views[i as int] == params@[i as int]@);
        match &params[i] {
            Expr::Parameter(name, annotation) => {
                let shape = shape_of(annotation);
                match shape.1 {
                    Some(kind) => state.record(name.clone(), kind),
                    None => {},
                }
                let ghost before = param_views(slots@);
                slots.push(Param { name: name.clone(), repr: shape.0 });
                proof {
                    let slot = ParamView { name: name@, repr: shape.0 };
                    assert(param_views(slots@) =~= before.push(slot));
                    match lower_params(views, i + 1, state@) {
                        Ok((rest, after)) => {
                            assert(param_views(slots@) + rest =~= before + (seq![slot] + rest));
                        },
                        Err(_) => {},
                    }
                }
            },
            _ => {
                return Err(CompileError::UnsupportedConstruct);
            },
        }
        i += 1;
    }
    proof {
        assert(param_views(slots@) + Seq::<ParamView>::empty() =~= param_views(slots@));
    }
    Ok(slots)
}

/// Lowers a run of statements into the unit, one after the other.
fn eval_block(items: &Vec<Expr>, unit: &mut Unit, state: &mut SymbolTable) -> (result: Result<
    Slot,
    CompileError,
>)
    ensures
        carried_out(
            lower_block(expr_views(items@), 0, old(state)@),
            result,
            old(unit),
            final(unit),
            final(state),
        ),
    decreases items, items.len() + 1,
{
    let ghost views = expr_views(items@);
    let ghost whole = lower_block(views, 0, state@);
    let mut i: usize = 0;
    proof {
        lemma_expr_views(items@);
        lemma_run(whole, unit@, unit@, state@);
    }
    while i < items.len()
        invariant
            i <= items.len(),
            views == expr_views(items@),
            views.len() == items.len(),
            forall|j: int| 0 <= j < items.len() ==> #[trigger] views[j] == items@[j]@,
            whole == lower_block(views, 0, old(state)@),
            under_way(whole, lower_block(views, i as int, state@), old(unit)@, unit@),
        decreases items.len() - i,
    {
        let ghost env = state@;
        let ghost before = unit@;
        assert(views[i as int] == items@[i as int]@);
        match eval_node(&items[i], unit, state) {
            Ok(_) => {},
            Err(error) => {
                return Err(error);
            },
        }
        proof {
            let head = lower_node(views[i as int], env)->Ok_0;
            lemma_step(whole, head, lower_block(views, i + 1, state@), old(unit)@, before, unit@);
        }
        i += 1;
    }
    proof {
        lemma_run(whole, old(unit)@, unit@, state@);
    }
    Ok(Slot::Primary)
}

/// Lowers one argument of a call into the unit.
fn eval_arg(arg: &Expr, unit: &mut Unit, state: &mut SymbolTable) -> (result: Result<
    Slot,
    CompileError,
>)
    ensures
        carried_out(lower_arg(arg@, old(state)@), result, old(unit), final(unit), final(state)),
    decreases arg, 3int,
{
    match arg {
        Expr::Number(value) => Ok(emit_plain(Instr::Push(Operand::Signed(*value)), unit)),
        Expr::Identifier(name) => Ok(
            emit_plain(Instr::Push(Operand::NameValue(name.clone())), unit),
        ),
        Expr::String(_) => eval_node(arg, unit, state),
        Expr::DecFunc(name, _, _, _) => {
            match eval_node(arg, unit, state) {
                Ok(_) => {},
                Err(error) => {
                    return Err(error);
                },
            }
            let ghost mid = unit@;
            unit.emit(Instr::Push(Operand::Name(name.clone())));
            proof {
                lemma_finish(
                    lower_node(arg@, old(state)@)->Ok_0,
                    InstrView::Push(OperandView::Name(name@)),
                    old(unit)@,
                    mid,
                    unit@,
                );
            }
            Ok(Slot::Primary)
        },
        _ => {
            let place = match eval_node(arg, unit, state) {
                Ok(place) => place,
                Err(error) => {
                    return Err(error);
                },
            };
            let ghost mid = unit@;
            unit.emit(Instr::Push(Operand::Scratch(place)));
            proof {
                lemma_finish(
                    lower_node(arg@, old(state)@)->Ok_0,
                    InstrView::Push(scratch(place)),
                    old(unit)@,
                    mid,
                    unit@,
                );
            }
            Ok(Slot::Primary)
        },
    }
}

/// Lowers the arguments of a call into the unit, left to right.
fn eval_args(args: &Vec<Expr>, unit: &mut Unit, state: &mut SymbolTable) -> (result: Result<
    Slot,
    CompileError,
>)
    ensures
        carried_out(
            lower_args(expr_views(args@), 0, old(state)@),
            result,
            old(unit),
            final(unit),
            final(state),
        ),
    decreases args, args.len() + 1,
{
    let ghost views = expr_views(args@);
    let ghost whole = lower_args(views, 0, state@);
    let mut i: usize = 0;
    proof {
        lemma_expr_views(args@);
        lemma_run(whole, unit@, unit@, state@);
    }
    while i < args.len()
        invariant
            i <= args.len(),
            views == expr_views(args@),
            views.len() == args.len(),
            forall|j: int| 0 <= j < args.len() ==> #[trigger] views[j] == args@[j]@,
            whole == lower_args(views, 0, old(state)@),
            under_way(whole, lower_args(views, i as int, state@), old(unit)@, unit@),
        decreases args.len() - i,
    {
        let ghost env = state@;
        let ghost before = unit@;
        assert(views[i as int] == args@[i as int]@);
        match eval_arg(&args[i], unit, state) {
            Ok(_) => {},
            Err(error) => {
                return Err(error);
            },
        }
        proof {
            let head = lower_arg(views[i as int], env)->Ok_0;
            lemma_step(whole, head, lower_args(views, i + 1, state@), old(unit)@, before, unit@);
        }
        i += 1;
    }
    proof {
        lemma_run(whole, old(unit)@, unit@, state@);
    }
    Ok(Slot::Primary)
}

/// Lowers a call of `name` into the unit.
fn eval_call(name: String, args: &Vec<Expr>, unit: &mut Unit, state: &mut SymbolTable) -> (result:
    Result<Slot, CompileError>)
    ensures
        carried_out(
            lower_call(name@, expr_views(args@), old(state)@),
            result,
            old(unit),
            final(unit),
            final(state),
        ),
    decreases args, args.len() + 2,
{
    match eval_args(args, unit, state) {
        Ok(_) => {},
        Err(error) => {
            return Err(error);
        },
    }
    let ghost pushed = lower_args(expr_views(args@), 0, old(state)@)->Ok_0;
    let place = emit_call(name, unit, state);
    proof {
        assert(unit@.code =~= old(unit)@.code + (pushed.code + call_tail(name@, pushed.env)));
    }
    Ok(place)
}

/// Emits the store that fills one cell of a fresh array.
fn eval_element(item: &Expr, at: i64, unit: &mut Unit, state: &mut SymbolTable) -> (result: Result<
    Slot,
    CompileError,
>)
    ensures
        carried_out(
            lower_element(item@, at as int, old(state)@),
            result,
            old(unit),
            final(unit),
            final(state),
        ),
    decreases item, 3int,
{
    match direct(item) {
        Some(operand) => Ok(
            emit_plain(
                Instr::Pmov(operand, Operand::Scratch(Slot::Aggregate), Operand::Signed(at)),
                unit,
            ),
        ),
        None => {
            let place = match eval_node(item, unit, state) {
                Ok(place) => place,
                Err(error) => {
                    return Err(error);
                },
            };
            let ghost mid = unit@;
            unit.emit(
                Instr::Pmov(
                    Operand::Scratch(place),
                    Operand::Scratch(Slot::Aggregate),
                    Operand::Signed(at),
                ),
            );
            proof {
                lemma_finish(
                    lower_node(item@, old(state)@)->Ok_0,
                    InstrView::Pmov(
                        scratch(place),
                        scratch(Slot::Aggregate),
                        OperandView::Signed(at),
                    ),
                    old(unit)@,
                    mid,
                    unit@,
                );
            }
            Ok(Slot::Primary)
        },
    }
}

/// Emits the stores that fill a fresh array.
fn eval_elements(items: &Vec<Expr>, unit: &mut Unit, state: &mut SymbolTable) -> (result: Result<
    Slot,
    CompileError,
>)
    requires
        items.len() <= i64::MAX,
    ensures
        carried_out(
            lower_elements(expr_views(items@), 0, old(state)@),
            result,
            old(unit),
            final(unit),
            final(state),
        ),
    decreases items, items.len() + 1,
{
    let ghost views = expr_views(items@);
    let ghost whole = lower_elements(views, 0, state@);
    let mut i: usize = 0;
    let mut at: i64 = 0;
    proof {
        lemma_expr_views(items@);
        lemma_run(whole, unit@, unit@, state@);
    }
    while i < items.len()
        invariant
            i <= items.len(),
            items.len() <= i64::MAX,
            at == i,
            views == expr_views(items@),
            views.len() == items.len(),
            forall|j: int| 0 <= j < items.len() ==> #[trigger] views[j] == items@[j]@,
            whole == lower_elements(views, 0, old(state)@),
            under_way(whole, lower_elements(views, i as int, state@), old(unit)@, unit@),
        decreases items.len() - i,
    {
        let ghost env = state@;
        let ghost before = unit@;
        assert(views[i as int] == items@[i as int]@);
        match eval_element(&items[i], at, unit, state) {
            Ok(_) => {},
            Err(error) => {
                return Err(error);
            },
        }
        proof {
            let head = lower_element(views[i as int], i as int, env)->Ok_0;
            lemma_step(
                whole,
                head,
                lower_elements(views, i + 1, state@),
                old(unit)@,
                before,
                unit@,
            );
        }
        i += 1;
        at = at + 1;
    }
    proof {
        lemma_run(whole, old(unit)@, unit@, state@);
    }
    Ok(Slot::Primary)
}

/// Lowers an array literal into the unit.
fn eval_array(items: &Vec<Expr>, unit: &mut Unit, state: &mut SymbolTable) -> (result: Result<
    Slot,
    CompileError,
>)
    ensures
        carried_out(
            lower_array(expr_views(items@), old(state)@),
            result,
            old(unit),
            final(unit),
            final(state),
        ),
    decreases items, items.len() + 2,
{
    proof {
        lemma_expr_views(items@);
    }
    if items.len() as u64 > 0x7fff_ffff_ffff_ffff {
        return Err(CompileError::UnsupportedConstruct);
    }
    unit.emit(
        Instr::Alloc(
            Repr::Scalar,
            Operand::Signed(items.len() as i64),
            Operand::Scratch(Slot::Aggregate),
        ),
    );
    match eval_elements(items, unit, state) {
        Ok(_) => {},
        Err(error) => {
            return Err(error);
        },
    }
    unit.emit(Instr::Mov(Operand::Scratch(Slot::Aggregate), Operand::Scratch(Slot::Primary)));
    proof {
        let views = expr_views(items@);
        let filled = lower_elements(views, 0, old(state)@)->Ok_0;
        assert(unit@.code =~= old(unit)@.code + (seq![
            InstrView::Alloc(
                Repr::Scalar,
                OperandView::Signed(views.len() as i64),
                scratch(Slot::Aggregate),
            ),
        ] + filled.code + seq![InstrView::Mov(scratch(Slot::Aggregate), scratch(Slot::Primary))]));
    }
    Ok(Slot::Primary)
}

/// Lowers an operand that needs evaluation into the unit.
fn eval_operand(node: &Expr, unit: &mut Unit, state: &mut SymbolTable) -> (result: Result<
    Slot,
    CompileError,
>)
    ensures
        carried_out(
            lower_operand(node@, old(state)@),
            result,
            old(unit),
            final(unit),
            final(state),
        ),
    decreases node, 3int,
{
    match node {
        Expr::String(text) => Ok(eval_string_value(text, unit, state)),
        _ => eval_node(node, unit, state),
    }
}

/// Lowers a value that is moved into a name, and gives the operand in which
/// the value is then found.
fn eval_value(node: &Expr, unit: &mut Unit, state: &mut SymbolTable) -> (result: Result<
    Operand,
    CompileError,
>)
    ensures
        match lower_value(node@, old(state)@) {
            Ok((made, operand)) => result is Ok && result->Ok_0@ == operand && extends(
                made,
                old(unit)@,
                final(unit)@,
                final(state)@,
            ),
            Err(error) => result == Err::<Operand, CompileError>(error),
        },
    decreases node, 4int,
{
    match direct(node) {
        Some(operand) => {
            proof {
                assert(unit@.code + Seq::<InstrView>::empty() =~= unit@.code);
                assert(unit@.strings + Seq::<Seq<char>>::empty() =~= unit@.strings);
            }
            Ok(operand)
        },
        None => match eval_operand(node, unit, state) {
            Ok(place) => Ok(Operand::Scratch(place)),
            Err(error) => Err(error),
        },
    }
}

/// Creates the cell of a declared name, moves the value into it and records
/// the kind.
fn eval_declared(name: &String, kind: Kind, value: &Expr, unit: &mut Unit, state: &mut SymbolTable)
    -> (result: Result<Slot, CompileError>)
    ensures
        match lower_value(value@, old(state)@) {
            Ok((made, operand)) => result == Ok::<Slot, CompileError>(Slot::Primary)
                && final(unit)@.code == old(unit)@.code + (seq![
                InstrView::Var(repr_of(kind), name@),
            ]
                + made.code.push(InstrView::Mov(operand, OperandView::Ident(name@))))
                && final(unit)@.strings == old(unit)@.strings + made.strings && final(state)@
                == made.env.insert(name@, kind),
            Err(error) => result == Err::<Slot, CompileError>(error),
        },
    decreases value, 5int,
{
    unit.emit(Instr::Var(representation(kind), name.clone()));
    let operand = match eval_value(value, unit, state) {
        Ok(operand) => operand,
        Err(error) => {
            return Err(error);
        },
    };
    unit.emit(Instr::Mov(operand, Operand::Ident(name.clone())));
    state.record(name.clone(), kind);
    proof {
        let made = lower_value(value@, old(state)@)->Ok_0.0;
        assert(unit@.code =~= old(unit)@.code + (seq![InstrView::Var(repr_of(kind), name@)]
            + made.code.push(InstrView::Mov(operand@, OperandView::Ident(name@)))));
        assert(unit@.strings =~= old(unit)@.strings + made.strings);
    }
    Ok(Slot::Primary)
}

/// Lowers a declaration into the unit.
fn eval_declaration(node: &Expr, unit: &mut Unit, state: &mut SymbolTable) -> (result: Result<
    Slot,
    CompileError,
>)
    ensures
        carried_out(
            lower_declaration(node@, old(state)@),
            result,
            old(unit),
            final(unit),
            final(state),
        ),
    decreases node, 1int,
{
    proof {
        reveal_with_fuel(Expr::model, 2);
    }
    match node {
        Expr::BinOp(Operator::Declare(annotation), target, value) => {
            match &**target {
                Expr::Identifier(name) => {
                    match resolve_kind(annotation, value, state) {
                        Ok(kind) => eval_declared(name, kind, value, unit, state),
                        Err(error) => Err(error),
                    }
                },
                _ => Err(CompileError::InvalidDeclarationTarget),
            }
        },
        _ => Err(CompileError::UnsupportedConstruct),
    }
}

/// Lowers an assignment into the unit.
fn eval_assignment(node: &Expr, unit: &mut Unit, state: &mut SymbolTable) -> (result: Result<
    Slot,
    CompileError,
>)
    ensures
        carried_out(
            lower_assignment(node@, old(state)@),
            result,
            old(unit),
            final(unit),
            final(state),
        ),
    decreases node, 1int,
{
    proof {
        reveal_with_fuel(Expr::model, 2);
    }
    match node {
        Expr::BinOp(Operator::Assign, target, value) => {
            match &**target {
                Expr::Identifier(name) => {
                    let operand = match eval_value(value, unit, state) {
                        Ok(operand) => operand,
                        Err(error) => {
                            return Err(error);
                        },
                    };
                    let ghost mid = unit@;
                    unit.emit(Instr::Mov(operand, Operand::Ident(name.clone())));
                    proof {
                        lemma_finish(
                            lower_value(value@, old(state)@)->Ok_0.0,
                            InstrView::Mov(operand@, OperandView::Ident(name@)),
                            old(unit)@,
                            mid,
                            unit@,
                        );
                    }
                    Ok(Slot::Primary)
                },
                _ => Err(CompileError::InvalidAssignmentTarget),
            }
        },
        _ => Err(CompileError::UnsupportedConstruct),
    }
}

/// Lowers an operation of which both sides need evaluation: the left result
/// waits in the secondary slot while the right side is computed.
fn eval_both(node: &Expr, unit: &mut Unit, state: &mut SymbolTable) -> (result: Result<
    Slot,
    CompileError,
>)
    requires
        node@ matches ExprView::BinOp(_, left, right) && direct_operand(*left) is None
            && direct_operand(*right) is None,
    ensures
        carried_out(
            lower_combination(node@, old(state)@),
            result,
            old(unit),
            final(unit),
            final(state),
        ),
    decreases node, 0int,
{
    match node {
        Expr::BinOp(operator, left, right) => {
            match &**left {
                Expr::String(_) => {
                    return Err(CompileError::UnsupportedConstruct);
                },
                _ => {},
            }
            let held = match eval_node(left, unit, state) {
                Ok(place) => place,
                Err(error) => {
                    return Err(error);
                },
            };
            let ghost first = lower_node(left@, old(state)@)->Ok_0;
            unit.emit(Instr::Mov(Operand::Scratch(held), Operand::Scratch(Slot::Secondary)));
            let place = match eval_operand(right, unit, state) {
                Ok(place) => place,
                Err(error) => {
                    return Err(error);
                },
            };
            let ghost second = lower_operand(right@, first.env)->Ok_0;
            unit.emit(
                combined(operator, Operand::Scratch(Slot::Secondary), Operand::Scratch(place)),
            );
            proof {
                let spill = InstrView::Mov(scratch(held), scratch(Slot::Secondary));
                let last = combine(*operator, scratch(Slot::Secondary), scratch(place));
                assert(unit@.code =~= old(unit)@.code + (first.code.push(spill)
                    + second.code.push(last)));
                assert(unit@.strings =~= old(unit)@.strings + (first.strings + second.strings));
            }
            Ok(Slot::Primary)
        },
        _ => Err(CompileError::UnsupportedConstruct),
    }
}

/// Lowers an arithmetic operation or a comparison into the unit.
fn eval_combination(node: &Expr, unit: &mut Unit, state: &mut SymbolTable) -> (result: Result<
    Slot,
    CompileError,
>)
    ensures
        carried_out(
            lower_combination(node@, old(state)@),
            result,
            old(unit),
            final(unit),
            final(state),
        ),
    decreases node, 1int,
{
    match node {
        Expr::BinOp(operator, left, right) => {
            match (direct(left), direct(right)) {
                (Some(first), Some(second)) => {
                    Ok(emit_plain(combined(operator, first, second), unit))
                },
                (Some(first), None) => {
                    let place = match eval_operand(right, unit, state) {
                        Ok(place) => place,
                        Err(error) => {
                            return Err(error);
                        },
                    };
                    let ghost mid = unit@;
                    let ghost instr = combine(*operator, first@, scratch(place));
                    unit.emit(combined(operator, first, Operand::Scratch(place)));
                    proof {
                        lemma_finish(
                            lower_operand(right@, old(state)@)->Ok_0,
                            instr,
                            old(unit)@,
                            mid,
                            unit@,
                        );
                    }
                    Ok(Slot::Primary)
                },
                (None, Some(second)) => {
                    match &**left {
                        Expr::String(_) => {
                            return Err(CompileError::UnsupportedConstruct);
                        },
                        _ => {},
                    }
                    let place = match eval_node(left, unit, state) {
                        Ok(place) => place,
                        Err(error) => {
                            return Err(error);
                        },
                    };
                    let ghost mid = unit@;
                    let ghost instr = combine(*operator, scratch(place), second@);
                    unit.emit(combined(operator, Operand::Scratch(place), second));
                    proof {
                        lemma_finish(
                            lower_node(left@, old(state)@)->Ok_0,
                            instr,
                            old(unit)@,
                            mid,
                            unit@,
                        );
                    }
                    Ok(Slot::Primary)
                },
                (None, None) => eval_both(node, unit, state),
            }
        },
        _ => Err(CompileError::UnsupportedConstruct),
    }
}

/// Lowers an array access into the unit.
fn eval_index(node: &Expr, unit: &mut Unit, state: &mut SymbolTable) -> (result: Result<
    Slot,
    CompileError,
>)
    ensures
        carried_out(lower_index(node@, old(state)@), result, old(unit), final(unit), final(state)),
    decreases node, 1int,
{
    match node {
        Expr::ArrayAccess(name, index) => {
            match eval_node(index, unit, state) {
                Ok(_) => {},
                Err(error) => {
                    return Err(error);
                },
            }
            emit_load(Operand::Ident(name.clone()), Operand::Scratch(Slot::Primary), unit);
            proof {
                let made = lower_node(index@, old(state)@)->Ok_0;
                assert(unit@.code =~= old(unit)@.code + (made.code + load_through(
                    OperandView::Ident(name@),
                    scratch(Slot::Primary),
                )));
            }
            Ok(Slot::Primary)
        },
        _ => Err(CompileError::UnsupportedConstruct),
    }
}

/// Emits the load through a base at an index.
fn emit_load(base: Operand, index: Operand, unit: &mut Unit)
    ensures
        final(unit)@.code == old(unit)@.code + load_through(base@, index@),
        final(unit)@.strings == old(unit)@.strings,
{
    unit.emit(Instr::Arith(Arith::Add, base, index, Operand::Scratch(Slot::Primary)));
    unit.emit(Instr::Deref(Operand::Scratch(Slot::Primary), Operand::Scratch(Slot::Primary)));
    assert(unit@.code =~= old(unit)@.code + load_through(base@, index@));
}

/// Lowers a property access on the object `object` into the unit.
fn eval_member(object: &String, member: &Expr, unit: &mut Unit, state: &mut SymbolTable) -> (result:
    Result<Slot, CompileError>)
    ensures
        carried_out(
            lower_member(object@, member@, old(state)@),
            result,
            old(unit),
            final(unit),
            final(state),
        ),
    decreases member, 0int,
{
    proof {
        reveal_with_fuel(Expr::model, 2);
    }
    match member {
        Expr::Identifier(name) => Ok(
            emit_plain(
                Instr::Mov(
                    Operand::Ident(flattened(object, name)),
                    Operand::Scratch(Slot::Primary),
                ),
                unit,
            ),
        ),
        Expr::CallFunc(callee, args) => match &**callee {
            Expr::Identifier(name) => eval_call(flattened(object, name), args, unit, state),
            _ => Err(CompileError::MalformedCallee),
        },
        Expr::ArrayAccess(name, index) => match &**index {
            Expr::Number(at) => {
                emit_load(Operand::Ident(flattened(object, name)), Operand::Signed(*at), unit);
                proof {
                    assert(unit@.strings =~= old(unit)@.strings + Seq::<Seq<char>>::empty());
                }
                Ok(Slot::Primary)
            },
            _ => Err(CompileError::UnsupportedConstruct),
        },
        _ => Err(CompileError::UnsupportedConstruct),
    }
}

/// Lowers a function declaration into the unit.
fn eval_function(node: &Expr, unit: &mut Unit, state: &mut SymbolTable) -> (result: Result<
    Slot,
    CompileError,
>)
    ensures
        carried_out(
            lower_function(node@, old(state)@),
            result,
            old(unit),
            final(unit),
            final(state),
        ),
    decreases node, 1int,
{
    match node {
        Expr::DecFunc(name, params, body, annotation) => {
            let slots = match eval_params(params, state) {
                Ok(slots) => slots,
                Err(error) => {
                    return Err(error);
                },
            };
            let ghost inside = state@;
            let mut inner = Unit::new();
            inner.emit(Instr::Var(Repr::Scalar, Slot::Primary.name()));
            match eval_block(body, &mut inner, state) {
                Ok(_) => {},
                Err(error) => {
                    return Err(error);
                },
            }
            let kind = match kind_of_result(annotation) {
                Some(kind) => kind,
                None => {
                    return Err(CompileError::UnsupportedConstruct);
                },
            };
            state.record(name.clone(), kind);
            let ghost made = lower_block(expr_views(body@), 0, inside)->Ok_0;
            let ghost stream = seq![InstrView::Var(Repr::Scalar, Slot::Primary.cell())]
                + made.code;
            proof {
                assert(inner@.code =~= stream);
                assert(inner@.strings =~= made.strings);
            }
            let Unit { code, strings } = inner;
            unit.adopt(strings);
            let ghost record = InstrView::Function(
                name@,
                param_views(slots@),
                Repr::Scalar,
                stream,
            );
            unit.emit(Instr::Function(name.clone(), slots, Repr::Scalar, code));
            proof {
                assert(unit@.code =~= old(unit)@.code + seq![record]);
            }
            Ok(Slot::Primary)
        },
        _ => Err(CompileError::UnsupportedConstruct),
    }
}

/// The children of the scope of a conditional. The jump targets are the
/// positions at which the second branch and the end of the scope come to
/// stand.
fn branch(first: Vec<Instr>, second: Vec<Instr>) -> (children: Vec<Instr>)
    ensures
        instr_views(children@) == branch_layout(instr_views(first@), instr_views(second@)),
{
    let skip_at: i64 = 2;
    let second_at: i64 = skip_at + 1;
    let exit_at: i64 = second_at + 1;
    let mut children: Vec<Instr> = Vec::new();
    children.push(
        Instr::Jne(
            Operand::Scratch(Slot::Primary),
            Operand::Signed(1),
            Operand::Signed(second_at),
        ),
    );
    children.push(Instr::Scope(first));
    assert(children.len() == skip_at);
    children.push(Instr::Jmp(Operand::Signed(exit_at)));
    assert(children.len() == second_at);
    children.push(Instr::Scope(second));
    assert(children.len() == exit_at);
    assert(instr_views(children@) =~= branch_layout(instr_views(first@), instr_views(second@)));
    children
}

/// The children of the scope of a loop. The jump targets are the positions
/// at which the condition and the end of the scope come to stand.
fn repeat(condition: Vec<Instr>, body: Vec<Instr>) -> (children: Vec<Instr>)
    ensures
        instr_views(children@) == loop_layout(instr_views(condition@), instr_views(body@)),
{
    let condition_at: i64 = 0;
    let exit_at: i64 = condition_at + 4;
    let mut children: Vec<Instr> = Vec::new();
    assert(children.len() == condition_at);
    children.push(Instr::Scope(condition));
    children.push(
        Instr::Jne(Operand::Scratch(Slot::Primary), Operand::Signed(1), Operand::Signed(exit_at)),
    );
    children.push(Instr::Scope(body));
    children.push(Instr::Jmp(Operand::Signed(condition_at)));
    assert(children.len() == exit_at);
    assert(instr_views(children@) =~= loop_layout(instr_views(condition@), instr_views(body@)));
    children
}

/// Lowers a conditional into the unit.
fn eval_conditional(node: &Expr, unit: &mut Unit, state: &mut SymbolTable) -> (result: Result<
    Slot,
    CompileError,
>)
    ensures
        carried_out(
            lower_conditional(node@, old(state)@),
            result,
            old(unit),
            final(unit),
            final(state),
        ),
    decreases node, 1int,
{
    match node {
        Expr::If(condition, first, second) => {
            match eval_node(condition, unit, state) {
                Ok(_) => {},
                Err(error) => {
                    return Err(error);
                },
            }
            let ghost tested = lower_node(condition@, old(state)@)->Ok_0;
            let mut taken = Unit::new();
            match eval_block(first, &mut taken, state) {
                Ok(_) => {},
                Err(error) => {
                    return Err(error);
                },
            }
            let ghost taken_made = lower_block(expr_views(first@), 0, tested.env)->Ok_0;
            let mut other = Unit::new();
            match eval_block(second, &mut other, state) {
                Ok(_) => {},
                Err(error) => {
                    return Err(error);
                },
            }
            let ghost other_made = lower_block(expr_views(second@), 0, taken_made.env)->Ok_0;
            proof {
                assert(taken@.code =~= taken_made.code);
                assert(other@.code =~= other_made.code);
                assert(taken@.strings =~= taken_made.strings);
                assert(other@.strings =~= other_made.strings);
            }
            let Unit { code: first_code, strings: first_strings } = taken;
            let Unit { code: second_code, strings: second_strings } = other;
            unit.adopt(first_strings);
            unit.adopt(second_strings);
            let children = branch(first_code, second_code);
            unit.emit(Instr::Scope(children));
            proof {
                assert(unit@.code =~= old(unit)@.code + tested.code.push(
                    InstrView::Scope(branch_layout(taken_made.code, other_made.code)),
                ));
                assert(unit@.strings =~= old(unit)@.strings + (tested.strings
                    + taken_made.strings + other_made.strings));
            }
            Ok(Slot::Primary)
        },
        _ => Err(CompileError::UnsupportedConstruct),
    }
}

/// Lowers a loop into the unit.
fn eval_loop(node: &Expr, unit: &mut Unit, state: &mut SymbolTable) -> (result: Result<
    Slot,
    CompileError,
>)
    ensures
        carried_out(lower_loop(node@, old(state)@), result, old(unit), final(unit), final(state)),
    decreases node, 1int,
{
    match node {
        Expr::While(condition, body) => {
            let mut tested = Unit::new();
            match eval_node(condition, &mut tested, state) {
                Ok(_) => {},
                Err(error) => {
                    return Err(error);
                },
            }
            let ghost tested_made = lower_node(condition@, old(state)@)->Ok_0;
            let mut inner = Unit::new();
            match eval_block(body, &mut inner, state) {
                Ok(_) => {},
                Err(error) => {
                    return Err(error);
                },
            }
            let ghost made = lower_block(expr_views(body@), 0, tested_made.env)->Ok_0;
            proof {
                assert(tested@.code =~= tested_made.code);
                assert(inner@.code =~= made.code);
                assert(tested@.strings =~= tested_made.strings);
                assert(inner@.strings =~= made.strings);
            }
            let Unit { code: condition_code, strings: condition_strings } = tested;
            let Unit { code: body_code, strings: body_strings } = inner;
            unit.adopt(condition_strings);
            unit.adopt(body_strings);
            let children = repeat(condition_code, body_code);
            let ghost scope = InstrView::Scope(loop_layout(tested_made.code, made.code));
            unit.emit(Instr::Scope(children));
            proof {
                assert(unit@.code =~= old(unit)@.code + seq![scope]);
                assert(unit@.strings =~= old(unit)@.strings + (tested_made.strings
                    + made.strings));
            }
            Ok(Slot::Primary)
        },
        _ => Err(CompileError::UnsupportedConstruct),
    }
}

/// Lowers a return into the unit.
fn eval_return(node: &Expr, unit: &mut Unit, state: &mut SymbolTable) -> (result: Result<
    Slot,
    CompileError,
>)
    ensures
        carried_out(lower_return(node@, old(state)@), result, old(unit), final(unit), final(state)),
    decreases node, 1int,
{
    match node {
        Expr::Return(value) => {
            match eval_node(value, unit, state) {
                Ok(_) => {},
                Err(error) => {
                    return Err(error);
                },
            }
            let ghost mid = unit@;
            unit.emit(Instr::Ret(Operand::Scratch(Slot::Primary)));
            proof {
                lemma_finish(
                    lower_node(value@, old(state)@)->Ok_0,
                    InstrView::Ret(scratch(Slot::Primary)),
                    old(unit)@,
                    mid,
                    unit@,
                );
            }
            Ok(Slot::Primary)
        },
        _ => Err(CompileError::UnsupportedConstruct),
    }
}

/// Lowers one node into the unit.
fn eval_node(node: &Expr, unit: &mut Unit, state: &mut SymbolTable) -> (result: Result<
    Slot,
    CompileError,
>)
    ensures
        carried_out(lower_node(node@, old(state)@), result, old(unit), final(unit), final(state)),
    decreases node, 2int,
{
    proof {
        reveal_with_fuel(Expr::model, 2);
    }
    match node {
        Expr::BinOp(Operator::Declare(_), _, _) => eval_declaration(node, unit, state),
        Expr::BinOp(Operator::Assign, _, _) => eval_assignment(node, unit, state),
        Expr::BinOp(_, _, _) => eval_combination(node, unit, state),
        Expr::Number(value) => Ok(
            emit_plain(
                Instr::Mov(Operand::Signed(*value), Operand::Scratch(Slot::Primary)),
                unit,
            ),
        ),
        Expr::Identifier(name) => Ok(
            emit_plain(
                Instr::Mov(Operand::Ident(name.clone()), Operand::Scratch(Slot::Primary)),
                unit,
            ),
        ),
        Expr::String(text) => {
            emit_string(text, unit);
            Ok(Slot::Primary)
        },
        Expr::Array(items) => eval_array(items, unit, state),
        Expr::ArrayAccess(_, _) => eval_index(node, unit, state),
        Expr::PropertyAccess(object, member) => match &**object {
            Expr::Identifier(name) => eval_member(name, member, unit, state),
            _ => Err(CompileError::UnsupportedConstruct),
        },
        Expr::CallFunc(callee, args) => match &**callee {
            Expr::Identifier(name) => eval_call(name.clone(), args, unit, state),
            _ => Err(CompileError::MalformedCallee),
        },
        Expr::DecFunc(_, _, _, _) => eval_function(node, unit, state),
        Expr::If(_, _, _) => eval_conditional(node, unit, state),
        Expr::While(_, _) => eval_loop(node, unit, state),
        Expr::Return(_) => eval_return(node, unit, state),
        Expr::Import(name) => Ok(emit_plain(Instr::Import(name.clone()), unit)),
        Expr::Include(name) => Ok(emit_plain(Instr::Import(name.clone()), unit)),
        Expr::Pass => Ok(emit_plain(Instr::Nop, unit)),
        _ => Err(CompileError::UnsupportedConstruct),
    }
}

/// Lowers a syntax tree: appends its instructions and string constants to
/// `unit` and extends `state`, which the caller has seeded with the scratch
/// slots and with the kinds of the names that are defined elsewhere. A tree
/// that cannot be lowered gives the error and nothing else: the unit is
/// abandoned.
pub fn eval(ast: Vec<Expr>, unit: Unit, state: SymbolTable) -> (result: Result<
    (Unit, SymbolTable),
    CompileError,
>)
    ensures
        match lowering(expr_views(ast@), state@) {
            Ok(made) => result is Ok && extends(
                made,
                unit@,
                result->Ok_0.0@,
                result->Ok_0.1@,
            ),
            Err(error) => result is Err && result->Err_0 == error,
        },
{
    let mut unit = unit;
    let mut state = state;
    match eval_block(&ast, &mut unit, &mut state) {
        Ok(_) => Ok((unit, state)),
        Err(error) => Err(error),
    }
}

} // verus!
