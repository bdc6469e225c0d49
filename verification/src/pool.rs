//! The pool of a lowered unit: the string constants that the code pushes by
//! their pool entries, at any depth, are exactly the constants that lowering
//! pools, in the same order.

use vstd::prelude::*;
use crate::code::{InstrView, OperandView, Repr, Slot};
use crate::enums::{ExprView, Operator};
use crate::lowering::{
    branch_layout, call_tail, combine, direct_operand, finish, join, load_through, loop_layout,
    lower_arg, lower_args, lower_array, lower_assignment, lower_block, lower_call,
    lower_combination, lower_conditional, lower_declaration, lower_element, lower_elements,
    lower_function, lower_index, lower_loop, lower_member, lower_node, lower_operand,
    lower_params, lower_return, lower_string_value, lower_value, lowering, member_name, repr_of,
    resolve, string_maker, string_pushes, Env, Lowered, Outcome,
};

verus! {

/// The string constants that one instruction names, in order: the constant
/// of a push of a pool entry, and what the children of a scope or the body
/// of a function name.
pub open spec fn named_by(instr: InstrView) -> Seq<Seq<char>>
    decreases instr, 0int,
{
    match instr {
        InstrView::Push(OperandView::Pooled(text)) => seq![text],
        InstrView::Scope(children) => named_from(children, 0),
        InstrView::Function(_, _, _, body) => named_from(body, 0),
        _ => Seq::empty(),
    }
}

/// The string constants that a run of instructions names from `from` on.
pub open spec fn named_from(code: Seq<InstrView>, from: int) -> Seq<Seq<char>>
    decreases code, code.len() - from,
{
    if from < 0 || from >= code.len() {
        Seq::empty()
    } else {
        named_by(code[from]) + named_from(code, from + 1)
    }
}

/// The string constants that a run of instructions names, in order.
pub open spec fn named(code: Seq<InstrView>) -> Seq<Seq<char>> {
    named_from(code, 0)
}

/// Whether what lowering yields pools exactly what its code names.
pub open spec fn exact(made: Lowered) -> bool {
    named(made.code) == made.strings
}

/// Whether lowering, where it succeeds, pools exactly what its code names.
pub open spec fn sound(outcome: Outcome) -> bool {
    outcome matches Ok(made) ==> exact(made)
}

/// Behind a first run, a second run names what it names alone.
proof fn lemma_named_behind(first: Seq<InstrView>, second: Seq<InstrView>, from: int)
    requires
        0 <= from,
    ensures
        named_from(first + second, first.len() + from) == named_from(second, from),
    decreases second.len() - from,
{
    if from < second.len() {
        assert((first + second)[first.len() + from] == second[from]);
        lemma_named_behind(first, second, from + 1);
    }
}

/// Two runs, one after the other, name what the first names and then what
/// the second names.
proof fn lemma_named_within(first: Seq<InstrView>, second: Seq<InstrView>, from: int)
    requires
        0 <= from <= first.len(),
    ensures
        named_from(first + second, from) == named_from(first, from) + named(second),
    decreases first.len() - from,
{
    if from < first.len() {
        assert((first + second)[from] == first[from]);
        lemma_named_within(first, second, from + 1);
        assert(named_from(first + second, from) =~= named_from(first, from) + named(second));
    } else {
        lemma_named_behind(first, second, 0);
        assert(named_from(first + second, from) =~= named_from(first, from) + named(second));
    }
}

/// Two runs, one after the other, name what the first names and then what
/// the second names.
pub proof fn lemma_named_joined(first: Seq<InstrView>, second: Seq<InstrView>)
    ensures
        named(first + second) == named(first) + named(second),
{
    lemma_named_within(first, second, 0);
}

/// A run of one instruction names what the instruction names.
pub proof fn lemma_named_one(instr: InstrView)
    ensures
        named(seq![instr]) == named_by(instr),
{
    reveal_with_fuel(named_from, 2);
    assert(named(seq![instr]) =~= named_by(instr));
}

/// A run with one more instruction names what it named, and then what the
/// instruction names.
pub proof fn lemma_named_push(code: Seq<InstrView>, instr: InstrView)
    ensures
        named(code.push(instr)) == named(code) + named_by(instr),
{
    lemma_named_one(instr);
    lemma_named_joined(code, seq![instr]);
    assert(code.push(instr) =~= code + seq![instr]);
}

/// A run of instructions of which none names a constant names none.
proof fn lemma_named_none(code: Seq<InstrView>, from: int)
    requires
        forall|i: int| 0 <= i < code.len() ==> named_by(#[trigger] code[i]).len() == 0,
    ensures
        named_from(code, from) == Seq::<Seq<char>>::empty(),
    decreases code.len() - from,
{
    if 0 <= from < code.len() {
        lemma_named_none(code, from + 1);
        assert(named_by(code[from]) =~= Seq::<Seq<char>>::empty());
        assert(named_from(code, from) =~= Seq::<Seq<char>>::empty());
    }
}

/// One more instruction that names nothing leaves the pool exact.
proof fn lemma_finished(made: Lowered, instr: InstrView)
    requires
        exact(made),
        named_by(instr).len() == 0,
    ensures
        exact(finish(made, instr)),
{
    lemma_named_push(made.code, instr);
    assert(named(made.code) + named_by(instr) =~= named(made.code));
}

/// Two steps with exact pools have an exact pool together.
proof fn lemma_joined(head: Lowered, tail: Outcome)
    requires
        exact(head),
        sound(tail),
    ensures
        sound(join(head, tail)),
{
    if let Ok(rest) = tail {
        lemma_named_joined(head.code, rest.code);
    }
}

/// The two-way layout names what the first branch names and then what the
/// second names.
proof fn lemma_branch_layout(first: Seq<InstrView>, second: Seq<InstrView>)
    ensures
        named(branch_layout(first, second)) == named(first) + named(second),
{
    reveal_with_fuel(named_from, 5);
    assert(named(branch_layout(first, second)) =~= named(first) + named(second));
}

/// The loop layout names what the condition names and then what the body
/// names.
proof fn lemma_loop_layout(condition: Seq<InstrView>, body: Seq<InstrView>)
    ensures
        named(loop_layout(condition, body)) == named(condition) + named(body),
{
    reveal_with_fuel(named_from, 5);
    assert(named(loop_layout(condition, body)) =~= named(condition) + named(body));
}

/// The call and the retrieval after it name nothing.
proof fn lemma_call_tail(name: Seq<char>, env: Env)
    ensures
        named(call_tail(name, env)) == Seq::<Seq<char>>::empty(),
{
    lemma_named_none(call_tail(name, env), 0);
}

/// The pushes of a string constant name the constant.
proof fn lemma_string_pushes(text: Seq<char>)
    ensures
        named(string_pushes(text)) == seq![text],
{
    reveal_with_fuel(named_from, 3);
    assert(named(string_pushes(text)) =~= seq![text]);
}

/// A string value pools what it names.
proof fn lemma_string_value(text: Seq<char>, env: Env)
    ensures
        exact(lower_string_value(text, env)),
{
    lemma_string_pushes(text);
    lemma_call_tail(string_maker(), env);
    lemma_named_joined(string_pushes(text), call_tail(string_maker(), env));
    assert(seq![text] + Seq::<Seq<char>>::empty() =~= seq![text]);
}

/// A run of statements pools what it names.
proof fn pooled_block(items: Seq<ExprView>, from: int, env: Env)
    ensures
        sound(lower_block(items, from, env)),
    decreases items, items.len() - from,
{
    if 0 <= from < items.len() {
        pooled_node(items[from], env);
        if let Ok(head) = lower_node(items[from], env) {
            pooled_block(items, from + 1, head.env);
            lemma_joined(head, lower_block(items, from + 1, head.env));
        }
    }
}

/// An argument of a call pools what it names.
proof fn pooled_arg(arg: ExprView, env: Env)
    ensures
        sound(lower_arg(arg, env)),
    decreases arg, 2int,
{
    match arg {
        ExprView::Number(value) => {
            lemma_named_none(seq![InstrView::Push(OperandView::Signed(value))], 0);
        },
        ExprView::Identifier(name) => {
            lemma_named_none(seq![InstrView::Push(OperandView::NameValue(name))], 0);
        },
        ExprView::String(_) => {
            pooled_node(arg, env);
        },
        ExprView::DecFunc(name, _, _, _) => {
            pooled_node(arg, env);
            if let Ok(made) = lower_node(arg, env) {
                lemma_finished(made, InstrView::Push(OperandView::Name(name)));
            }
        },
        _ => {
            pooled_node(arg, env);
            if let Ok(made) = lower_node(arg, env) {
                lemma_finished(made, InstrView::Push(OperandView::Scratch(made.place)));
            }
        },
    }
}

/// The arguments of a call pool what they name.
proof fn pooled_args(args: Seq<ExprView>, from: int, env: Env)
    ensures
        sound(lower_args(args, from, env)),
    decreases args, args.len() - from,
{
    if 0 <= from < args.len() {
        pooled_arg(args[from], env);
        if let Ok(head) = lower_arg(args[from], env) {
            pooled_args(args, from + 1, head.env);
            lemma_joined(head, lower_args(args, from + 1, head.env));
        }
    }
}

/// A call pools what it names.
proof fn pooled_call(name: Seq<char>, args: Seq<ExprView>, env: Env)
    ensures
        sound(lower_call(name, args, env)),
    decreases args, args.len() + 1,
{
    pooled_args(args, 0, env);
    if let Ok(pushed) = lower_args(args, 0, env) {
        lemma_call_tail(name, pushed.env);
        lemma_named_joined(pushed.code, call_tail(name, pushed.env));
        assert(pushed.strings + Seq::<Seq<char>>::empty() =~= pushed.strings);
    }
}

/// The store of an element of an array pools what it names.
proof fn pooled_element(item: ExprView, at: int, env: Env)
    ensures
        sound(lower_element(item, at, env)),
    decreases item, 2int,
{
    let index = OperandView::Signed(at as i64);
    match direct_operand(item) {
        Some(operand) => {
            lemma_named_none(
                seq![InstrView::Pmov(operand, OperandView::Scratch(Slot::Aggregate), index)],
                0,
            );
        },
        None => {
            pooled_node(item, env);
            if let Ok(made) = lower_node(item, env) {
                lemma_finished(
                    made,
                    InstrView::Pmov(
                        OperandView::Scratch(made.place),
                        OperandView::Scratch(Slot::Aggregate),
                        index,
                    ),
                );
            }
        },
    }
}

/// The stores of the elements of an array pool what they name.
proof fn pooled_elements(items: Seq<ExprView>, from: int, env: Env)
    ensures
        sound(lower_elements(items, from, env)),
    decreases items, items.len() - from,
{
    if 0 <= from < items.len() {
        pooled_element(items[from], from, env);
        if let Ok(head) = lower_element(items[from], from, env) {
            pooled_elements(items, from + 1, head.env);
            lemma_joined(head, lower_elements(items, from + 1, head.env));
        }
    }
}

/// An array literal pools what it names.
proof fn pooled_array(items: Seq<ExprView>, env: Env)
    ensures
        sound(lower_array(items, env)),
    decreases items, items.len() + 1,
{
    pooled_elements(items, 0, env);
    if let Ok(made) = lower_array(items, env) {
        let filled = lower_elements(items, 0, env)->Ok_0;
        let head = made.code.subrange(0, 1);
        let tail = made.code.subrange(made.code.len() - 1, made.code.len() as int);
        assert(made.code =~= head + filled.code + tail);
        lemma_named_none(head, 0);
        lemma_named_none(tail, 0);
        lemma_named_joined(head, filled.code);
        lemma_named_joined(head + filled.code, tail);
        assert(Seq::<Seq<char>>::empty() + filled.strings + Seq::<Seq<char>>::empty()
            =~= filled.strings);
    }
}

/// An operand that needs evaluation pools what it names.
proof fn pooled_operand(node: ExprView, env: Env)
    ensures
        sound(lower_operand(node, env)),
    decreases node, 2int,
{
    match node {
        ExprView::String(text) => {
            lemma_string_value(text, env);
        },
        _ => {
            pooled_node(node, env);
        },
    }
}

/// A value that is moved into a name pools what it names.
proof fn pooled_value(node: ExprView, env: Env)
    ensures
        lower_value(node, env) matches Ok((made, _)) ==> exact(made),
    decreases node, 3int,
{
    if direct_operand(node) is None {
        pooled_operand(node, env);
    }
}

/// A declaration pools what it names.
proof fn pooled_declaration(node: ExprView, env: Env)
    ensures
        sound(lower_declaration(node, env)),
    decreases node, 0int,
{
    if let ExprView::BinOp(Operator::Declare(annotation), target, value) = node {
        if let ExprView::Identifier(name) = *target {
            pooled_value(*value, env);
            if let Ok(kind) = resolve(annotation, *value, env) {
                if let Ok((made, operand)) = lower_value(*value, env) {
                    let first = seq![InstrView::Var(repr_of(kind), name)];
                    let last = InstrView::Mov(operand, OperandView::Ident(name));
                    lemma_named_none(first, 0);
                    lemma_named_push(made.code, last);
                    lemma_named_joined(first, made.code.push(last));
                    assert(Seq::<Seq<char>>::empty() + (made.strings + named_by(last))
                        =~= made.strings);
                }
            }
        }
    }
}

/// An assignment pools what it names.
proof fn pooled_assignment(node: ExprView, env: Env)
    ensures
        sound(lower_assignment(node, env)),
    decreases node, 0int,
{
    if let ExprView::BinOp(Operator::Assign, target, value) = node {
        if let ExprView::Identifier(name) = *target {
            pooled_value(*value, env);
            if let Ok((made, operand)) = lower_value(*value, env) {
                lemma_finished(made, InstrView::Mov(operand, OperandView::Ident(name)));
            }
        }
    }
}

/// An arithmetic operation or a comparison pools what it names.
proof fn pooled_combination(node: ExprView, env: Env)
    ensures
        sound(lower_combination(node, env)),
    decreases node, 0int,
{
    if let ExprView::BinOp(operator, left, right) = node {
        let secondary = OperandView::Scratch(Slot::Secondary);
        match (direct_operand(*left), direct_operand(*right)) {
            (Some(first), Some(second)) => {
                lemma_named_none(seq![combine(operator, first, second)], 0);
            },
            (Some(first), None) => {
                pooled_operand(*right, env);
                if let Ok(made) = lower_operand(*right, env) {
                    lemma_finished(
                        made,
                        combine(operator, first, OperandView::Scratch(made.place)),
                    );
                }
            },
            (None, Some(second)) => {
                pooled_node(*left, env);
                if let Ok(made) = lower_node(*left, env) {
                    lemma_finished(
                        made,
                        combine(operator, OperandView::Scratch(made.place), second),
                    );
                }
            },
            (None, None) => {
                pooled_node(*left, env);
                if let Ok(first) = lower_node(*left, env) {
                    pooled_operand(*right, first.env);
                    if let Ok(second) = lower_operand(*right, first.env) {
                        let kept = finish(
                            first,
                            InstrView::Mov(OperandView::Scratch(first.place), secondary),
                        );
                        let done = finish(
                            second,
                            combine(operator, secondary, OperandView::Scratch(second.place)),
                        );
                        lemma_finished(
                            first,
                            InstrView::Mov(OperandView::Scratch(first.place), secondary),
                        );
                        lemma_finished(
                            second,
                            combine(operator, secondary, OperandView::Scratch(second.place)),
                        );
                        lemma_joined(kept, Ok(done));
                    }
                }
            },
        }
    }
}

/// An array access pools what it names.
proof fn pooled_index(node: ExprView, env: Env)
    ensures
        sound(lower_index(node, env)),
    decreases node, 0int,
{
    if let ExprView::ArrayAccess(name, index) = node {
        pooled_node(*index, env);
        if let Ok(made) = lower_node(*index, env) {
            let load = load_through(
                OperandView::Ident(name),
                OperandView::Scratch(Slot::Primary),
            );
            lemma_named_none(load, 0);
            lemma_named_joined(made.code, load);
            assert(made.strings + Seq::<Seq<char>>::empty() =~= made.strings);
        }
    }
}

/// A property access pools what it names.
proof fn pooled_member(object: Seq<char>, member: ExprView, env: Env)
    ensures
        sound(lower_member(object, member, env)),
    decreases member, 0int,
{
    match member {
        ExprView::Identifier(name) => {
            lemma_named_none(lower_member(object, member, env)->Ok_0.code, 0);
        },
        ExprView::CallFunc(callee, args) => {
            if let ExprView::Identifier(name) = *callee {
                pooled_call(member_name(object, name), args, env);
            }
        },
        ExprView::ArrayAccess(name, index) => {
            if let ExprView::Number(at) = *index {
                lemma_named_none(lower_member(object, member, env)->Ok_0.code, 0);
            }
        },
        _ => {},
    }
}

/// A function declaration pools what it names.
proof fn pooled_function(node: ExprView, env: Env)
    ensures
        sound(lower_function(node, env)),
    decreases node, 0int,
{
    if let ExprView::DecFunc(name, params, body, annotation) = node {
        if let Ok((slots, inside)) = lower_params(params, 0, env) {
            pooled_block(body, 0, inside);
            if let Ok(made) = lower_block(body, 0, inside) {
                if let Ok(whole) = lower_function(node, env) {
                    let first = seq![
                        InstrView::Var(Repr::Scalar, Slot::Primary.cell()),
                    ];
                    lemma_named_none(first, 0);
                    lemma_named_joined(first, made.code);
                    lemma_named_one(whole.code[0]);
                    assert(whole.code =~= seq![whole.code[0]]);
                    assert(Seq::<Seq<char>>::empty() + made.strings =~= made.strings);
                }
            }
        }
    }
}

/// A conditional pools what it names.
proof fn pooled_conditional(node: ExprView, env: Env)
    ensures
        sound(lower_conditional(node, env)),
    decreases node, 0int,
{
    if let ExprView::If(condition, first, second) = node {
        pooled_node(*condition, env);
        if let Ok(tested) = lower_node(*condition, env) {
            pooled_block(first, 0, tested.env);
            if let Ok(taken) = lower_block(first, 0, tested.env) {
                pooled_block(second, 0, taken.env);
                if let Ok(other) = lower_block(second, 0, taken.env) {
                    lemma_branch_layout(taken.code, other.code);
                    lemma_named_push(
                        tested.code,
                        InstrView::Scope(branch_layout(taken.code, other.code)),
                    );
                    assert(tested.strings + (taken.strings + other.strings)
                        =~= tested.strings + taken.strings + other.strings);
                }
            }
        }
    }
}

/// A loop pools what it names.
proof fn pooled_loop(node: ExprView, env: Env)
    ensures
        sound(lower_loop(node, env)),
    decreases node, 0int,
{
    if let ExprView::While(condition, body) = node {
        pooled_node(*condition, env);
        if let Ok(tested) = lower_node(*condition, env) {
            pooled_block(body, 0, tested.env);
            if let Ok(made) = lower_block(body, 0, tested.env) {
                lemma_loop_layout(tested.code, made.code);
                lemma_named_one(InstrView::Scope(loop_layout(tested.code, made.code)));
            }
        }
    }
}

/// A return pools what it names.
proof fn pooled_return(node: ExprView, env: Env)
    ensures
        sound(lower_return(node, env)),
    decreases node, 0int,
{
    if let ExprView::Return(value) = node {
        pooled_node(*value, env);
        if let Ok(made) = lower_node(*value, env) {
            lemma_finished(
                made,
                InstrView::Ret(OperandView::Scratch(Slot::Primary)),
            );
        }
    }
}

/// A node pools what it names.
proof fn pooled_node(node: ExprView, env: Env)
    ensures
        sound(lower_node(node, env)),
    decreases node, 1int,
{
    match node {
        ExprView::BinOp(Operator::Declare(_), _, _) => {
            pooled_declaration(node, env);
        },
        ExprView::BinOp(Operator::Assign, _, _) => {
            pooled_assignment(node, env);
        },
        ExprView::BinOp(_, _, _) => {
            pooled_combination(node, env);
        },
        ExprView::String(text) => {
            lemma_string_pushes(text);
        },
        ExprView::Array(items) => {
            pooled_array(items, env);
        },
        ExprView::ArrayAccess(_, _) => {
            pooled_index(node, env);
        },
        ExprView::PropertyAccess(object, member) => {
            if let ExprView::Identifier(name) = *object {
                pooled_member(name, *member, env);
            }
        },
        ExprView::CallFunc(callee, args) => {
            if let ExprView::Identifier(name) = *callee {
                pooled_call(name, args, env);
            }
        },
        ExprView::DecFunc(_, _, _, _) => {
            pooled_function(node, env);
        },
        ExprView::If(_, _, _) => {
            pooled_conditional(node, env);
        },
        ExprView::While(_, _) => {
            pooled_loop(node, env);
        },
        ExprView::Return(_) => {
            pooled_return(node, env);
        },
        _ => {
            if let Ok(made) = lower_node(node, env) {
                lemma_named_none(made.code, 0);
            }
        },
    }
}

/// Whatever lowering a syntax tree pools, the code names, and the other way
/// round: the string constants that the code pushes by their pool entries,
/// inside scopes and functions too, are the pool that lowering yields, one
/// for one and in the same order.
pub proof fn law_pool(ast: Seq<ExprView>, env: Env)
    ensures
        lowering(ast, env) matches Ok(made) ==> named(made.code) == made.strings,
{
    pooled_block(ast, 0, env);
}

} // verus!
