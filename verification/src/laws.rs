//! Laws of lowering, proved from what lowering is defined to yield.

use vstd::prelude::*;
use crate::code::{Arith, InstrView, OperandView, Repr, Slot};
use crate::enums::{ExprView, MType, Operator};
use crate::grammar::binary;
use crate::lowering::{
    arith_of, branch_layout, callee_kind, combine, loop_layout, lower_args, lower_block,
    lower_call, lower_combination, lower_element, lower_elements, lower_node, lower_operand,
    plain, relation_of, scratch, Env, Lowered,
};
use crate::machine::{
    after, after_all, computed, holds, lemma_larger_budget, lemma_straight_return, run, straight,
    then, writes, Ran, Store,
};
use crate::symbols::{CompileError, Kind};

verus! {

/// An arithmetic operation on two numeric literals is lowered to a single
/// instruction on the two immediates, and that instruction leaves in the
/// primary slot what the operation computes. A division by the literal zero
/// is left out.
pub proof fn law_literal_arithmetic(
    operator: Operator,
    left: i64,
    right: i64,
    env: Env,
    store: Store,
)
    requires
        arith_of(operator) is Some,
        !(operator is Divide && right == 0),
    ensures
        lower_node(binary(operator, ExprView::Number(left), ExprView::Number(right)), env)
            == plain(
            seq![
                combine(operator, OperandView::Signed(left), OperandView::Signed(right)),
            ],
            env,
        ),
        after_all(
            lower_node(
                binary(operator, ExprView::Number(left), ExprView::Number(right)),
                env,
            )->Ok_0.code,
            store,
        )[Slot::Primary.cell()] == computed(
            arith_of(operator)->Some_0,
            left as int,
            right as int,
        ),
{
    let code = seq![combine(operator, OperandView::Signed(left), OperandView::Signed(right))];
    assert(code.drop_first() =~= Seq::<InstrView>::empty());
    reveal_with_fuel(after_all, 2);
}

/// An arithmetic operation on two arithmetic operations on numeric literals
/// writes the secondary slot exactly once, to keep the left result while the
/// right one is computed, and leaves in the primary slot what the whole
/// computes.
pub proof fn law_secondary_written_once(
    outer: Operator,
    first: Operator,
    second: Operator,
    a: i64,
    b: i64,
    c: i64,
    d: i64,
    env: Env,
    store: Store,
)
    requires
        arith_of(outer) is Some,
        arith_of(first) is Some,
        arith_of(second) is Some,
    ensures
        ({
            let node = binary(
                outer,
                binary(first, ExprView::Number(a), ExprView::Number(b)),
                binary(second, ExprView::Number(c), ExprView::Number(d)),
            );
            let made = lower_node(node, env);
            &&& made is Ok
            &&& made->Ok_0.code == seq![
                combine(first, OperandView::Signed(a), OperandView::Signed(b)),
                InstrView::Mov(scratch(Slot::Primary), scratch(Slot::Secondary)),
                combine(second, OperandView::Signed(c), OperandView::Signed(d)),
                combine(outer, scratch(Slot::Secondary), scratch(Slot::Primary)),
            ]
            &&& writes(made->Ok_0.code, Slot::Secondary) == 1
            &&& after_all(made->Ok_0.code, store)[Slot::Primary.cell()] == computed(
                arith_of(outer)->Some_0,
                computed(arith_of(first)->Some_0, a as int, b as int),
                computed(arith_of(second)->Some_0, c as int, d as int),
            )
        }),
{
    let left = binary(first, ExprView::Number(a), ExprView::Number(b));
    let right = binary(second, ExprView::Number(c), ExprView::Number(d));
    let node = binary(outer, left, right);
    let code = seq![
        combine(first, OperandView::Signed(a), OperandView::Signed(b)),
        InstrView::Mov(scratch(Slot::Primary), scratch(Slot::Secondary)),
        combine(second, OperandView::Signed(c), OperandView::Signed(d)),
        combine(outer, scratch(Slot::Secondary), scratch(Slot::Primary)),
    ];
    reveal_with_fuel(lower_node, 2);
    reveal_with_fuel(lower_combination, 2);
    assert(lower_node(left, env)->Ok_0.code == seq![
        combine(first, OperandView::Signed(a), OperandView::Signed(b)),
    ]);
    assert(lower_node(right, env)->Ok_0.code == seq![
        combine(second, OperandView::Signed(c), OperandView::Signed(d)),
    ]);
    assert(lower_operand(right, env) == lower_node(right, env));
    assert(lower_combination(node, env)->Ok_0.code =~= code);
    assert(lower_node(node, env) == lower_combination(node, env));
    let rest1 = code.drop_first();
    let rest2 = rest1.drop_first();
    let rest3 = rest2.drop_first();
    assert(rest3.drop_first() =~= Seq::<InstrView>::empty());
    reveal_strlit("temp");
    reveal_strlit("temp2");
    assert("temp"@ !~= "temp2"@);
    reveal_with_fuel(after_all, 5);
    reveal_with_fuel(writes, 5);
}

/// Whether a node is an arithmetic operation on two subtrees.
pub open spec fn is_operation(node: ExprView) -> bool {
    node matches ExprView::BinOp(operator, _, _) && arith_of(operator) is Some
}

/// Whether a tree is made of numeric literals and arithmetic operations only.
pub open spec fn arithmetic_tree(node: ExprView) -> bool
    decreases node,
{
    match node {
        ExprView::Number(_) => true,
        ExprView::BinOp(operator, left, right) => arith_of(operator) is Some && arithmetic_tree(
            *left,
        ) && arithmetic_tree(*right),
        _ => false,
    }
}

/// What an arithmetic tree computes.
pub open spec fn tree_value(node: ExprView) -> int
    decreases node,
{
    match node {
        ExprView::Number(value) => value as int,
        ExprView::BinOp(operator, left, right) => match arith_of(operator) {
            Some(op) => computed(op, tree_value(*left), tree_value(*right)),
            None => 0,
        },
        _ => 0,
    }
}

/// Whether somewhere in a tree both sides of an operation are operations, so
/// that the left result has to wait in the secondary slot.
pub open spec fn waits(node: ExprView) -> bool
    decreases node,
{
    match node {
        ExprView::BinOp(_, left, right) => (is_operation(*left) && is_operation(*right))
            || waits(*left) || waits(*right),
        _ => false,
    }
}

/// Whether at most one operand is ever in flight: wherever a left result
/// waits in the secondary slot, nothing on the right side has to wait there.
pub open spec fn one_in_flight(node: ExprView) -> bool
    decreases node,
{
    match node {
        ExprView::BinOp(_, left, right) => one_in_flight(*left) && one_in_flight(*right) && (
        is_operation(*left) && is_operation(*right) ==> !waits(*right)),
        _ => true,
    }
}

/// The store after two runs of instructions, one after the other, is the
/// store after the second run from the store after the first.
pub proof fn lemma_after_both(first: Seq<InstrView>, second: Seq<InstrView>, store: Store)
    ensures
        after_all(first + second, store) == after_all(second, after_all(first, store)),
    decreases first.len(),
{
    if first.len() == 0 {
        assert(first + second =~= second);
    } else {
        assert((first + second).drop_first() =~= first.drop_first() + second);
        lemma_after_both(first.drop_first(), second, after(first[0], store));
    }
}

/// The store after a run of one instruction is the store after the
/// instruction.
pub proof fn lemma_after_one(instr: InstrView, store: Store)
    ensures
        after_all(seq![instr], store) == after(instr, store),
{
    assert(seq![instr].drop_first() =~= Seq::<InstrView>::empty());
    reveal_with_fuel(after_all, 2);
}

/// The names of the primary and of the secondary slot differ.
pub proof fn lemma_slots_apart()
    ensures
        Slot::Primary.cell() != Slot::Secondary.cell(),
{
    reveal_strlit("temp");
    reveal_strlit("temp2");
    assert("temp"@.len() != "temp2"@.len());
}

/// Whether code for a tree is a straight run that leaves in the primary slot
/// what the tree computes, with nothing pooled and the environment as it was,
/// and leaves the secondary slot as it was where no left result has to wait.
pub open spec fn computes(node: ExprView, env: Env, store: Store) -> bool {
    &&& lower_node(node, env) matches Ok(made) && made.env == env && made.place == Slot::Primary
        && made.strings == Seq::<Seq<char>>::empty() && straight(made.code) && after_all(
        made.code,
        store,
    )[Slot::Primary.cell()] == tree_value(node) && (!waits(node) ==> after_all(
        made.code,
        store,
    )[Slot::Secondary.cell()] == store[Slot::Secondary.cell()])
}

/// An arithmetic tree of any depth in which at most one operand is ever in
/// flight is lowered to a straight run of instructions that leaves in the
/// primary slot what the tree computes, with nothing pooled and the
/// environment as it was. Code for a tree in which no left result has to wait
/// leaves the secondary slot as it was.
pub proof fn law_arithmetic_trees(node: ExprView, env: Env, store: Store)
    requires
        arithmetic_tree(node),
        one_in_flight(node),
    ensures
        computes(node, env, store),
    decreases node,
{
    lemma_slots_apart();
    match node {
        ExprView::Number(value) => {
            lemma_after_one(
                InstrView::Mov(OperandView::Signed(value), scratch(Slot::Primary)),
                store,
            );
        },
        ExprView::BinOp(operator, left, right) => {
            let left = *left;
            let right = *right;
            assert(arithmetic_tree(left) && arithmetic_tree(right));
            assert(one_in_flight(left) && one_in_flight(right));
            assert(lower_node(node, env) == lower_combination(node, env));
            assert(left is Number ==> tree_value(left) == left->Number_0 && !waits(left));
            assert(right is Number ==> tree_value(right) == right->Number_0 && !waits(right));
            if left is Number && right is Number {
                lemma_after_one(
                    combine(
                        operator,
                        OperandView::Signed(left->Number_0),
                        OperandView::Signed(right->Number_0),
                    ),
                    store,
                );
                assert(computes(node, env, store));
            } else if left is Number {
                assert(right is BinOp);
                law_arithmetic_trees(right, env, store);
                let made = lower_node(right, env)->Ok_0;
                assert(lower_operand(right, env) == lower_node(right, env));
                let last = combine(
                    operator,
                    OperandView::Signed(left->Number_0),
                    scratch(Slot::Primary),
                );
                assert(lower_combination(node, env)->Ok_0.code == made.code.push(last));
                assert(made.code.push(last) =~= made.code + seq![last]);
                lemma_after_both(made.code, seq![last], store);
                lemma_after_one(last, after_all(made.code, store));
                assert(computes(node, env, store));
            } else if right is Number {
                assert(left is BinOp);
                law_arithmetic_trees(left, env, store);
                let made = lower_node(left, env)->Ok_0;
                let last = combine(
                    operator,
                    scratch(Slot::Primary),
                    OperandView::Signed(right->Number_0),
                );
                assert(lower_combination(node, env)->Ok_0.code == made.code.push(last));
                assert(made.code.push(last) =~= made.code + seq![last]);
                lemma_after_both(made.code, seq![last], store);
                lemma_after_one(last, after_all(made.code, store));
                assert(computes(node, env, store));
            } else {
                assert(left is BinOp && right is BinOp);
                assert(is_operation(left) && is_operation(right));
                assert(!waits(right));
                law_arithmetic_trees(left, env, store);
                let first = lower_node(left, env)->Ok_0;
                let spill = InstrView::Mov(scratch(Slot::Primary), scratch(Slot::Secondary));
                let kept = after(spill, after_all(first.code, store));
                law_arithmetic_trees(right, env, kept);
                let second = lower_node(right, env)->Ok_0;
                assert(lower_operand(right, env) == lower_node(right, env));
                let last = combine(operator, scratch(Slot::Secondary), scratch(Slot::Primary));
                let code = first.code.push(spill) + second.code.push(last);
                assert(lower_combination(node, env)->Ok_0.code == code);
                assert(first.strings + second.strings =~= Seq::<Seq<char>>::empty());
                assert(code =~= first.code + (seq![spill] + (second.code + seq![last])));
                lemma_after_both(first.code, seq![spill] + (second.code + seq![last]), store);
                lemma_after_both(
                    seq![spill],
                    second.code + seq![last],
                    after_all(first.code, store),
                );
                lemma_after_one(spill, after_all(first.code, store));
                lemma_after_both(second.code, seq![last], kept);
                lemma_after_one(last, after_all(second.code, kept));
                assert(computes(node, env, store));
            }
        },
        _ => {},
    }
}

/// The program that declares a number by a value and returns it: `let name:
/// Number = value; return name;`.
pub open spec fn declared_and_returned(name: Seq<char>, value: ExprView) -> Seq<ExprView> {
    seq![
        binary(Operator::Declare(MType::Number), ExprView::Identifier(name), value),
        ExprView::Return(Box::new(ExprView::Identifier(name))),
    ]
}

/// A name that is declared with the value of an arithmetic tree and then
/// returned is lowered to code that returns what the tree computes, and the
/// name is recorded as a number.
pub proof fn law_declared_value(name: Seq<char>, value: ExprView, env: Env, store: Store)
    requires
        arithmetic_tree(value),
        one_in_flight(value),
    ensures
        lower_block(declared_and_returned(name, value), 0, env) matches Ok(made) && made.env
            == env.insert(name, Kind::Number) && (run(
            made.code,
            0,
            store,
            made.code.len(),
        ) matches Some(ran) && ran.returned == Some(tree_value(value))),
{
    let program = declared_and_returned(name, value);
    let declaration = program[0];
    let primary = scratch(Slot::Primary);
    let created = InstrView::Var(Repr::Scalar, name);
    let read = InstrView::Mov(OperandView::Ident(name), primary);
    let after_declaration = env.insert(name, Kind::Number);
    law_arithmetic_trees(value, env, store);
    let evaluated = lower_node(value, env)->Ok_0;
    let (code, operand) = if value is Number {
        (Seq::<InstrView>::empty(), OperandView::Signed(value->Number_0))
    } else {
        (evaluated.code, primary)
    };
    let written = InstrView::Mov(operand, OperandView::Ident(name));
    assert(lower_operand(value, env) == lower_node(value, env));
    assert(lower_node(declaration, env) matches Ok(made) && made.code == seq![created]
        + code.push(written) && made.env == after_declaration && made.strings
        == Seq::<Seq<char>>::empty()) by {
        reveal_with_fuel(lower_node, 2);
    }
    assert(lower_node(program[1], after_declaration) matches Ok(made) && made.code == seq![
        read,
    ].push(InstrView::Ret(primary)) && made.env == after_declaration) by {
        reveal_with_fuel(lower_node, 3);
    }
    assert(lower_block(program, 2, after_declaration) == plain(Seq::empty(), after_declaration));
    assert(lower_block(program, 1, after_declaration) matches Ok(made) && made.code =~= seq![
        read,
    ].push(InstrView::Ret(primary)) && made.env == after_declaration);
    let prefix = seq![created] + code + seq![written, read];
    let made = lower_block(program, 0, env)->Ok_0;
    assert(made.code =~= prefix.push(InstrView::Ret(primary)));
    assert(straight(prefix));
    lemma_after_both(seq![created] + code, seq![written, read], store);
    lemma_after_both(seq![created], code, store);
    lemma_after_one(created, store);
    let computed_store = after_all(code, store);
    assert(after_all(seq![written, read], computed_store) == after(
        read,
        after(written, computed_store),
    )) by {
        assert(seq![written, read].drop_first() =~= seq![read]);
        lemma_after_one(read, after(written, computed_store));
        reveal_with_fuel(after_all, 2);
    }
    assert(after_all(Seq::<InstrView>::empty(), store) == store);
    lemma_straight_return(prefix, primary, store, (prefix.len() + 1) as nat);
}

/// Every array access computes its address anew: the index is lowered into
/// the primary slot, the named base is added to it there, and the sum is
/// dereferenced in place. It fails only where its index does.
pub proof fn law_array_access(name: Seq<char>, index: ExprView, env: Env)
    ensures
        match lower_node(index, env) {
            Ok(at) => lower_node(ExprView::ArrayAccess(name, Box::new(index)), env) matches Ok(
                made,
            ) && made.code == at.code + seq![
                InstrView::Arith(
                    Arith::Add,
                    OperandView::Ident(name),
                    scratch(Slot::Primary),
                    scratch(Slot::Primary),
                ),
                InstrView::Deref(scratch(Slot::Primary), scratch(Slot::Primary)),
            ] && made.strings == at.strings && made.env == at.env && made.place
                == Slot::Primary,
            Err(error) => lower_node(ExprView::ArrayAccess(name, Box::new(index)), env) == Err::<
                Lowered,
                CompileError,
            >(error),
        },
{
}

/// The numeric literals of a list of values, as nodes.
pub open spec fn literals(values: Seq<i64>) -> Seq<ExprView> {
    Seq::new(values.len(), |i: int| ExprView::Number(values[i]))
}

/// The program that declares an array of numeric literals and returns one of
/// its elements: `let name: Number = [values]; return name[at];`.
pub open spec fn array_read(name: Seq<char>, values: Seq<i64>, at: i64) -> Seq<ExprView> {
    seq![
        binary(
            Operator::Declare(MType::Number),
            ExprView::Identifier(name),
            ExprView::Array(literals(values)),
        ),
        ExprView::Return(
            Box::new(ExprView::ArrayAccess(name, Box::new(ExprView::Number(at)))),
        ),
    ]
}

/// The stores that fill a fresh array with literals from cell `from` on.
pub open spec fn fill(values: Seq<i64>, from: int) -> Seq<InstrView> {
    Seq::new(
        (values.len() - from) as nat,
        |k: int|
            InstrView::Pmov(
                OperandView::Signed(values[from + k]),
                scratch(Slot::Aggregate),
                OperandView::Signed((from + k) as i64),
            ),
    )
}

/// The elements of an array of literals are lowered to one store each.
proof fn lemma_fill_lowered(values: Seq<i64>, from: int, env: Env)
    requires
        0 <= from <= values.len() <= i64::MAX,
    ensures
        lower_elements(literals(values), from, env) == plain(fill(values, from), env),
    decreases values.len() - from,
{
    let items = literals(values);
    if from == values.len() {
        assert(fill(values, from) =~= Seq::<InstrView>::empty());
    } else {
        let store = InstrView::Pmov(
            OperandView::Signed(values[from]),
            scratch(Slot::Aggregate),
            OperandView::Signed(from as i64),
        );
        assert(items[from] == ExprView::Number(values[from]));
        assert(lower_element(items[from], from, env) == plain(seq![store], env));
        lemma_fill_lowered(values, from + 1, env);
        assert(seq![store] + fill(values, from + 1) =~= fill(values, from));
        assert(Seq::<Seq<char>>::empty() + Seq::<Seq<char>>::empty() =~= Seq::<
            Seq<char>,
        >::empty());
    }
}

/// The stores of a fill put each literal into its memory cell and leave the
/// named cells and the rest of the memory as they are.
proof fn lemma_fill_effect(values: Seq<i64>, from: int, base: int, store: Store)
    requires
        0 <= from <= values.len() <= i64::MAX,
        0 <= base,
        base + values.len() <= store.memory.len(),
        store[Slot::Aggregate.cell()] == base,
    ensures
        ({
            let filled = after_all(fill(values, from), store);
            &&& filled.cells == store.cells
            &&& filled.memory.len() == store.memory.len()
            &&& forall|j: int| from <= j < values.len() ==> filled.memory[base + j] == values[j]
            &&& forall|a: int|
                0 <= a < store.memory.len() && !(base + from <= a < base + values.len())
                    ==> filled.memory[a] == store.memory[a]
        }),
    decreases values.len() - from,
{
    let code = fill(values, from);
    if from == values.len() {
        assert(code.len() == 0);
    } else {
        let next = after(code[0], store);
        assert(code.drop_first() =~= fill(values, from + 1));
        assert(next.cells == store.cells);
        assert(next.memory == store.memory.update(base + from, values[from] as int));
        lemma_fill_effect(values, from + 1, base, next);
    }
}

/// What comes before the fill in the code of the array program: the
/// declaration of the name and the allocation. After the fill come the
/// handing over of the pointer, its move into the name, the index, the sum
/// and the load.
pub open spec fn array_read_head(name: Seq<char>, values: Seq<i64>) -> Seq<InstrView> {
    seq![
        InstrView::Var(Repr::Scalar, name),
        InstrView::Alloc(
            Repr::Scalar,
            OperandView::Signed(values.len() as i64),
            scratch(Slot::Aggregate),
        ),
    ]
}

/// What comes after the fill in the code of the array program.
pub open spec fn array_read_tail(name: Seq<char>, at: i64) -> Seq<InstrView> {
    seq![
        InstrView::Mov(scratch(Slot::Aggregate), scratch(Slot::Primary)),
        InstrView::Mov(scratch(Slot::Primary), OperandView::Ident(name)),
        InstrView::Mov(OperandView::Signed(at), scratch(Slot::Primary)),
        InstrView::Arith(
            Arith::Add,
            OperandView::Ident(name),
            scratch(Slot::Primary),
            scratch(Slot::Primary),
        ),
        InstrView::Deref(scratch(Slot::Primary), scratch(Slot::Primary)),
    ]
}

/// The declaration of an array of literals is lowered to the allocation, the
/// fill, the handing over of the pointer and its move into the name.
proof fn lemma_array_declared(name: Seq<char>, values: Seq<i64>, env: Env)
    requires
        values.len() <= i64::MAX,
    ensures
        lower_node(
            binary(
                Operator::Declare(MType::Number),
                ExprView::Identifier(name),
                ExprView::Array(literals(values)),
            ),
            env,
        ) matches Ok(made) && made.code == array_read_head(name, values) + fill(values, 0)
            + array_read_tail(name, 0).subrange(0, 2) && made.env == env.insert(
            name,
            Kind::Number,
        ),
{
    let array = ExprView::Array(literals(values));
    let handed = InstrView::Mov(scratch(Slot::Aggregate), scratch(Slot::Primary));
    let written = InstrView::Mov(scratch(Slot::Primary), OperandView::Ident(name));
    lemma_fill_lowered(values, 0, env);
    let array_code = seq![array_read_head(name, values)[1]] + fill(values, 0) + seq![handed];
    assert(lower_node(array, env) matches Ok(made) && made.code == array_code && made.env == env
        && made.place == Slot::Primary);
    assert(lower_operand(array, env) == lower_node(array, env));
    let node = binary(Operator::Declare(MType::Number), ExprView::Identifier(name), array);
    assert(lower_node(node, env) matches Ok(made) && made.code == seq![
        array_read_head(name, values)[0],
    ] + array_code.push(written)) by {
        reveal_with_fuel(lower_node, 2);
    }
    assert(seq![array_read_head(name, values)[0]] + array_code.push(written)
        =~= array_read_head(name, values) + fill(values, 0) + array_read_tail(
        name,
        0,
    ).subrange(0, 2));
}

/// The return of an element at a literal index is lowered to the index, the
/// sum, the load and the return of the primary slot.
proof fn lemma_element_returned(name: Seq<char>, at: i64, env: Env)
    ensures
        lower_node(
            ExprView::Return(
                Box::new(ExprView::ArrayAccess(name, Box::new(ExprView::Number(at)))),
            ),
            env,
        ) matches Ok(made) && made.code == array_read_tail(name, at).subrange(2, 5).push(
            InstrView::Ret(scratch(Slot::Primary)),
        ) && made.env == env,
{
    let indexed = InstrView::Mov(OperandView::Signed(at), scratch(Slot::Primary));
    assert(lower_node(ExprView::Number(at), env) == plain(seq![indexed], env));
    let access = ExprView::ArrayAccess(name, Box::new(ExprView::Number(at)));
    assert(lower_node(access, env) matches Ok(made) && made.code =~= array_read_tail(
        name,
        at,
    ).subrange(2, 5) && made.env == env) by {
        reveal_with_fuel(lower_node, 2);
    }
    reveal_with_fuel(lower_node, 2);
}

/// The array program is lowered to the head, the fill, the tail and the
/// return of the primary slot.
proof fn lemma_array_read_lowered(name: Seq<char>, values: Seq<i64>, at: i64, env: Env)
    requires
        values.len() <= i64::MAX,
    ensures
        lower_block(array_read(name, values, at), 0, env) matches Ok(made) && made.code == (
        array_read_head(name, values) + fill(values, 0) + array_read_tail(name, at)).push(
            InstrView::Ret(scratch(Slot::Primary)),
        ),
{
    let program = array_read(name, values, at);
    let after_declaration = env.insert(name, Kind::Number);
    lemma_array_declared(name, values, env);
    lemma_element_returned(name, at, after_declaration);
    assert(lower_block(program, 2, after_declaration) == plain(Seq::empty(), after_declaration));
    let last = lower_node(program[1], after_declaration)->Ok_0;
    assert(lower_block(program, 1, after_declaration) matches Ok(made) && made.code
        =~= last.code);
    let first = lower_node(program[0], env)->Ok_0;
    let made = lower_block(program, 0, env)->Ok_0;
    assert(made.code =~= first.code + last.code);
    assert(array_read_tail(name, 0).subrange(0, 2) =~= array_read_tail(name, at).subrange(0, 2));
    assert(first.code + last.code =~= (array_read_head(name, values) + fill(values, 0)
        + array_read_tail(name, at)).push(InstrView::Ret(scratch(Slot::Primary))));
}

/// The tail of the array program leaves in the primary slot the memory cell
/// at the index from the base that the aggregate slot holds.
proof fn lemma_array_read_tail(name: Seq<char>, at: i64, store: Store)
    requires
        name != Slot::Primary.cell(),
        0 <= store[Slot::Aggregate.cell()] + at < store.memory.len(),
    ensures
        after_all(array_read_tail(name, at), store)[Slot::Primary.cell()]
            == store.memory[store[Slot::Aggregate.cell()] + at],
{
    let tail = array_read_tail(name, at);
    let s1 = after(tail[0], store);
    let s2 = after(tail[1], s1);
    let s3 = after(tail[2], s2);
    let s4 = after(tail[3], s3);
    let s5 = after(tail[4], s4);
    assert(tail.drop_first() =~= seq![tail[1], tail[2], tail[3], tail[4]]);
    assert(tail.drop_first().drop_first() =~= seq![tail[2], tail[3], tail[4]]);
    assert(tail.drop_first().drop_first().drop_first() =~= seq![tail[3], tail[4]]);
    assert(tail.drop_first().drop_first().drop_first().drop_first() =~= seq![tail[4]]);
    lemma_after_one(tail[4], s4);
    assert(after_all(seq![tail[3], tail[4]], s3) == s5) by {
        assert(seq![tail[3], tail[4]].drop_first() =~= seq![tail[4]]);
    }
    assert(after_all(seq![tail[2], tail[3], tail[4]], s2) == s5) by {
        assert(seq![tail[2], tail[3], tail[4]].drop_first() =~= seq![tail[3], tail[4]]);
    }
    assert(after_all(seq![tail[1], tail[2], tail[3], tail[4]], s1) == s5) by {
        assert(seq![tail[1], tail[2], tail[3], tail[4]].drop_first() =~= seq![
            tail[2],
            tail[3],
            tail[4],
        ]);
    }
    assert(after_all(tail, store) == s5);
    assert(s2[name] == store[Slot::Aggregate.cell()]);
    assert(s3[name] == store[Slot::Aggregate.cell()]);
    assert(s4[Slot::Primary.cell()] == store[Slot::Aggregate.cell()] + at);
    assert(s4.memory == store.memory);
}

/// An array of numeric literals that is declared under a name and then read
/// at a literal index within its length yields the element at that index:
/// the code returns it. The name is not that of the primary slot, through
/// which the address is computed.
pub proof fn law_array_read(name: Seq<char>, values: Seq<i64>, at: i64, env: Env, store: Store)
    requires
        0 <= at < values.len() <= i64::MAX,
        name != Slot::Primary.cell(),
    ensures
        lower_block(array_read(name, values, at), 0, env) matches Ok(made) && (run(
            made.code,
            0,
            store,
            made.code.len(),
        ) matches Some(ran) && ran.returned == Some(values[at as int] as int)),
{
    let head = array_read_head(name, values);
    let tail = array_read_tail(name, at);
    let prefix = head + fill(values, 0) + tail;
    lemma_array_read_lowered(name, values, at, env);
    assert(straight(prefix));
    let base = store.memory.len() as int;
    let roomy = after(head[1], after(head[0], store));
    assert(after_all(head, store) == roomy) by {
        assert(head.drop_first() =~= seq![head[1]]);
        lemma_after_one(head[1], after(head[0], store));
    }
    assert(roomy[Slot::Aggregate.cell()] == base);
    assert(roomy.memory.len() == base + values.len());
    lemma_fill_effect(values, 0, base, roomy);
    let filled = after_all(fill(values, 0), roomy);
    lemma_after_both(head, fill(values, 0), store);
    lemma_after_both(head + fill(values, 0), tail, store);
    lemma_array_read_tail(name, at, filled);
    assert(filled.memory[base + at] == values[at as int]);
    lemma_straight_return(prefix, scratch(Slot::Primary), store, (prefix.len() + 1) as nat);
}

/// The retrieval after a call goes by the callee's kind: the result of a
/// callee recorded as a number is popped into the primary slot, by one pop
/// directly after the call; after a callee recorded as handing nothing back,
/// or as a callback of which no more is known, no pop is emitted.
pub proof fn law_return_convention(name: Seq<char>, args: Seq<ExprView>, env: Env)
    requires
        lower_args(args, 0, env) is Ok,
    ensures
        ({
            let pushed = lower_args(args, 0, env)->Ok_0;
            let made = lower_call(name, args, env);
            let kind = callee_kind(name, pushed.env);
            &&& made is Ok
            &&& made->Ok_0.code.len() == pushed.code.len() + 2
            &&& made->Ok_0.code.subrange(0, pushed.code.len() as int) == pushed.code
            &&& made->Ok_0.code[pushed.code.len() as int] is Call
            &&& kind is Number ==> made->Ok_0.code.last() == InstrView::Pop(
                scratch(Slot::Primary),
            ) && made->Ok_0.place == Slot::Primary
            &&& kind is Null || kind is Callback ==> made->Ok_0.code.last() == InstrView::Nop
        }),
{
    let pushed = lower_args(args, 0, env)->Ok_0;
    let made = lower_call(name, args, env)->Ok_0;
    assert(made.code.subrange(0, pushed.code.len() as int) =~= pushed.code);
}

/// A call of a callee that the environment does not know is lowered like a
/// call of a callee recorded as a number: by name, with one pop into the
/// primary slot. It fails only where its arguments do.
pub proof fn law_unknown_callee(name: Seq<char>, args: Seq<ExprView>, env: Env)
    ensures
        lower_call(name, args, env) is Ok <==> lower_args(args, 0, env) is Ok,
        lower_args(args, 0, env) is Ok && !lower_args(args, 0, env)->Ok_0.env.contains_key(name)
            ==> ({
            let pushed = lower_args(args, 0, env)->Ok_0;
            let made = lower_call(name, args, env)->Ok_0;
            &&& made.code == pushed.code + seq![
                InstrView::Call(OperandView::Name(name)),
                InstrView::Pop(scratch(Slot::Primary)),
            ]
            &&& made.place == Slot::Primary
        }),
        !env.contains_key(name) ==> lower_node(
            ExprView::CallFunc(Box::new(ExprView::Identifier(name)), Seq::empty()),
            env,
        ) == plain(
            seq![InstrView::Call(OperandView::Name(name)), InstrView::Pop(scratch(Slot::Primary))],
            env,
        ),
{
    if !env.contains_key(name) {
        let none = lower_args(Seq::<ExprView>::empty(), 0, env)->Ok_0;
        assert(none.code + seq![
            InstrView::Call(OperandView::Name(name)),
            InstrView::Pop(scratch(Slot::Primary)),
        ] =~= seq![
            InstrView::Call(OperandView::Name(name)),
            InstrView::Pop(scratch(Slot::Primary)),
        ]);
    }
}

/// The scope of a conditional runs exactly one of its branches: the first
/// where the primary slot holds one, the second where it holds anything
/// else. Nothing of the other branch runs, and the scope ends where the branch
/// ends.
pub proof fn law_two_way(
    first: Seq<InstrView>,
    second: Seq<InstrView>,
    store: Store,
    fuel: nat,
)
    requires
        store[Slot::Primary.cell()] == 1 ==> run(first, 0, store, fuel) is Some,
        store[Slot::Primary.cell()] != 1 ==> run(second, 0, store, fuel) is Some,
    ensures
        run(branch_layout(first, second), 0, store, fuel + 3) == if store[Slot::Primary.cell()]
            == 1 {
            run(first, 0, store, fuel)
        } else {
            run(second, 0, store, fuel)
        },
{
    let layout = branch_layout(first, second);
    reveal_with_fuel(run, 4);
    if store[Slot::Primary.cell()] == 1 {
        lemma_larger_budget(first, 0, store, fuel, fuel + 1);
    } else {
        lemma_larger_budget(second, 0, store, fuel, fuel + 1);
    }
}

/// A conditional on the comparison of two numeric literals runs the
/// comparison and then exactly the branch that the comparison selects: the
/// first where the relation holds of the literals, the second where it does
/// not.
pub proof fn law_conditional(
    operator: Operator,
    left: i64,
    right: i64,
    first: Seq<ExprView>,
    second: Seq<ExprView>,
    env: Env,
    store: Store,
    fuel: nat,
)
    requires
        relation_of(operator) is Some,
        lower_block(first, 0, env) is Ok,
        lower_block(second, 0, lower_block(first, 0, env)->Ok_0.env) is Ok,
        ({
            let taken = lower_block(first, 0, env)->Ok_0;
            let other = lower_block(second, 0, taken.env)->Ok_0;
            let tested = store.with(
                Slot::Primary.cell(),
                if holds(relation_of(operator)->Some_0, left as int, right as int) {
                    1int
                } else {
                    0int
                },
            );
            if holds(relation_of(operator)->Some_0, left as int, right as int) {
                run(taken.code, 0, tested, fuel) is Some
            } else {
                run(other.code, 0, tested, fuel) is Some
            }
        }),
    ensures
        ({
            let node = ExprView::If(
                Box::new(binary(operator, ExprView::Number(left), ExprView::Number(right))),
                first,
                second,
            );
            let taken = lower_block(first, 0, env)->Ok_0;
            let other = lower_block(second, 0, taken.env)->Ok_0;
            let selected = holds(relation_of(operator)->Some_0, left as int, right as int);
            let tested = store.with(
                Slot::Primary.cell(),
                if selected {
                    1int
                } else {
                    0int
                },
            );
            let branch = if selected {
                run(taken.code, 0, tested, fuel)->Some_0
            } else {
                run(other.code, 0, tested, fuel)->Some_0
            };
            &&& lower_node(node, env) is Ok
            &&& lower_node(node, env)->Ok_0.code == seq![
                combine(operator, OperandView::Signed(left), OperandView::Signed(right)),
                InstrView::Scope(branch_layout(taken.code, other.code)),
            ]
            &&& run(lower_node(node, env)->Ok_0.code, 0, store, fuel + 5) == Some(
                Ran { steps: branch.steps + 1, ..branch },
            )
        }),
{
    let condition = binary(operator, ExprView::Number(left), ExprView::Number(right));
    let node = ExprView::If(Box::new(condition), first, second);
    let taken = lower_block(first, 0, env)->Ok_0;
    let other = lower_block(second, 0, taken.env)->Ok_0;
    let selected = holds(relation_of(operator)->Some_0, left as int, right as int);
    let tested = store.with(
        Slot::Primary.cell(),
        if selected {
            1int
        } else {
            0int
        },
    );
    let layout = branch_layout(taken.code, other.code);
    let code = seq![
        combine(operator, OperandView::Signed(left), OperandView::Signed(right)),
        InstrView::Scope(layout),
    ];
    reveal_with_fuel(lower_node, 2);
    assert(lower_node(condition, env) == plain(
        seq![combine(operator, OperandView::Signed(left), OperandView::Signed(right))],
        env,
    ));
    assert(lower_node(node, env)->Ok_0.code =~= code);
    law_two_way(taken.code, other.code, tested, fuel);
    lemma_larger_budget(layout, 0, tested, fuel + 3, fuel + 4);
    reveal_with_fuel(run, 3);
}

/// A loop whose condition leaves anything but one in the primary slot ends
/// with the condition: nothing of its body runs.
pub proof fn law_loop_exit(
    condition: Seq<InstrView>,
    body: Seq<InstrView>,
    store: Store,
    fuel: nat,
)
    requires
        run(condition, 0, store, fuel) matches Some(tested) && tested.returned is None
            && tested.store[Slot::Primary.cell()] != 1,
    ensures
        run(loop_layout(condition, body), 0, store, fuel + 2) == run(condition, 0, store, fuel),
{
    let layout = loop_layout(condition, body);
    let tested = run(condition, 0, store, fuel)->Some_0;
    let ended = Ran { store: tested.store, steps: 0, returned: None };
    lemma_larger_budget(condition, 0, store, fuel, fuel + 1);
    assert(run(layout, 4, tested.store, fuel) == Some(ended));
    assert(run(layout, 1, tested.store, (fuel + 1) as nat) == Some(ended));
    assert(run(layout, 0, store, (fuel + 2) as nat) == then(tested, Some(ended)));
}

/// A loop whose condition leaves one in the primary slot runs the condition,
/// then its body, and then the loop again from the condition on.
pub proof fn law_loop_again(
    condition: Seq<InstrView>,
    body: Seq<InstrView>,
    store: Store,
    fuel: nat,
)
    requires
        run(condition, 0, store, fuel) matches Some(tested) && tested.returned is None
            && tested.store[Slot::Primary.cell()] == 1 && (run(body, 0, tested.store, fuel)
            matches Some(once) && once.returned is None && run(
            loop_layout(condition, body),
            0,
            once.store,
            fuel,
        ) is Some),
    ensures
        ({
            let tested = run(condition, 0, store, fuel)->Some_0;
            let once = run(body, 0, tested.store, fuel)->Some_0;
            let rest = run(loop_layout(condition, body), 0, once.store, fuel)->Some_0;
            run(loop_layout(condition, body), 0, store, fuel + 4) == Some(
                Ran {
                    store: rest.store,
                    steps: tested.steps + once.steps + rest.steps,
                    returned: rest.returned,
                },
            )
        }),
{
    let layout = loop_layout(condition, body);
    let tested = run(condition, 0, store, fuel)->Some_0;
    let once = run(body, 0, tested.store, fuel)->Some_0;
    let rest = run(layout, 0, once.store, fuel)->Some_0;
    lemma_larger_budget(condition, 0, store, fuel, fuel + 3);
    lemma_larger_budget(body, 0, tested.store, fuel, fuel + 1);
    assert(run(layout, 3, once.store, (fuel + 1) as nat) == Some(rest));
    assert(run(layout, 2, tested.store, (fuel + 2) as nat) == then(once, Some(rest)));
    assert(run(layout, 1, tested.store, (fuel + 3) as nat) == then(once, Some(rest)));
    assert(run(layout, 0, store, (fuel + 4) as nat) == then(tested, then(once, Some(rest))));
}

/// The loop that counts a name up to a bound: `while name < bound { name =
/// name + 1 }`.
pub open spec fn counting_loop(name: Seq<char>, bound: i64) -> ExprView {
    ExprView::While(
        Box::new(binary(Operator::Lesser, ExprView::Identifier(name), ExprView::Number(bound))),
        seq![
            binary(
                Operator::Assign,
                ExprView::Identifier(name),
                binary(Operator::Add, ExprView::Identifier(name), ExprView::Number(1)),
            ),
        ],
    )
}

/// The condition of the counting loop, lowered.
pub open spec fn counting_condition(name: Seq<char>, bound: i64) -> Seq<InstrView> {
    seq![
        combine(Operator::Lesser, OperandView::Ident(name), OperandView::Signed(bound)),
    ]
}

/// The body of the counting loop, lowered.
pub open spec fn counting_body(name: Seq<char>) -> Seq<InstrView> {
    seq![
        combine(Operator::Add, OperandView::Ident(name), OperandView::Signed(1)),
        InstrView::Mov(scratch(Slot::Primary), OperandView::Ident(name)),
    ]
}

/// How often the body of the counting loop has to run from a start value.
pub open spec fn rounds(start: int, bound: int) -> nat {
    if start < bound {
        (bound - start) as nat
    } else {
        0
    }
}

/// The condition of the counting loop is one comparison.
proof fn lemma_counting_condition(name: Seq<char>, bound: i64, store: Store, fuel: nat)
    requires
        fuel >= 1,
    ensures
        run(counting_condition(name, bound), 0, store, fuel) == Some(
            Ran {
                store: store.with(
                    Slot::Primary.cell(),
                    if store[name] < bound {
                        1int
                    } else {
                        0int
                    },
                ),
                steps: 1,
                returned: None,
            },
        ),
{
    reveal_with_fuel(run, 2);
}

/// The body of the counting loop adds one to the name, by way of the primary
/// slot.
proof fn lemma_counting_body(name: Seq<char>, store: Store, fuel: nat)
    requires
        fuel >= 2,
        name != Slot::Primary.cell(),
    ensures
        run(counting_body(name), 0, store, fuel) == Some(
            Ran {
                store: store.with(Slot::Primary.cell(), store[name] + 1).with(
                    name,
                    store[name] + 1,
                ),
                steps: 2,
                returned: None,
            },
        ),
{
    reveal_with_fuel(run, 3);
}

/// The scope of the counting loop runs its body once for each round.
proof fn lemma_counting_rounds(name: Seq<char>, bound: i64, store: Store, left: nat)
    requires
        name != Slot::Primary.cell(),
        left == rounds(store[name], bound as int),
    ensures
        run(
            loop_layout(counting_condition(name, bound), counting_body(name)),
            0,
            store,
            4 * left + 3,
        ) matches Some(ran) && ran.returned is None && ran.steps == 3 * left + 1
            && ran.store[name] == store[name] + left,
    decreases left,
{
    let condition = counting_condition(name, bound);
    let body = counting_body(name);
    let layout = loop_layout(condition, body);
    if left == 0 {
        lemma_counting_condition(name, bound, store, 1);
        law_loop_exit(condition, body, store, 1);
    } else {
        let fuel = (4 * (left - 1) + 3) as nat;
        lemma_counting_condition(name, bound, store, fuel);
        let tested = run(condition, 0, store, fuel)->Some_0;
        lemma_counting_body(name, tested.store, fuel);
        let once = run(body, 0, tested.store, fuel)->Some_0;
        assert(once.store[name] == store[name] + 1);
        lemma_counting_rounds(name, bound, once.store, (left - 1) as nat);
        law_loop_again(condition, body, store, fuel);
    }
}

/// The body of the counting loop is lowered to the sum into the primary slot
/// and the move of the sum into the name.
proof fn lemma_counting_increment(name: Seq<char>, env: Env)
    ensures
        lower_block(
            seq![
                binary(
                    Operator::Assign,
                    ExprView::Identifier(name),
                    binary(Operator::Add, ExprView::Identifier(name), ExprView::Number(1)),
                ),
            ],
            0,
            env,
        ) matches Ok(made) && made.code == counting_body(name) && made.env == env,
{
    let sum = binary(Operator::Add, ExprView::Identifier(name), ExprView::Number(1));
    let increment = binary(Operator::Assign, ExprView::Identifier(name), sum);
    let items = seq![increment];
    assert(lower_node(sum, env) == plain(
        seq![combine(Operator::Add, OperandView::Ident(name), OperandView::Signed(1))],
        env,
    )) by {
        reveal_with_fuel(lower_node, 2);
    }
    assert(lower_operand(sum, env) == lower_node(sum, env));
    assert(lower_node(increment, env) matches Ok(made) && made.code =~= counting_body(name)
        && made.env == env) by {
        reveal_with_fuel(lower_node, 2);
    }
    assert(lower_block(items, 1, env) == plain(Seq::empty(), env));
    let made = lower_block(items, 0, env)->Ok_0;
    assert(made.code =~= counting_body(name));
}

/// The counting loop is lowered to one scope in the loop layout.
proof fn lemma_counting_lowered(name: Seq<char>, bound: i64, env: Env)
    ensures
        lower_node(counting_loop(name, bound), env) matches Ok(made) && made.code == seq![
            InstrView::Scope(loop_layout(counting_condition(name, bound), counting_body(name))),
        ],
{
    let condition = binary(
        Operator::Lesser,
        ExprView::Identifier(name),
        ExprView::Number(bound),
    );
    assert(lower_node(condition, env) == plain(counting_condition(name, bound), env)) by {
        reveal_with_fuel(lower_node, 2);
    }
    lemma_counting_increment(name, env);
    reveal_with_fuel(lower_node, 2);
}

/// The counting loop from a start value runs its body exactly once for each
/// number from the start up to the bound, and ends with the name at the
/// bound: the comparison runs once more than the body, and the two
/// instructions of the body once for each round. From a start at or past the
/// bound the body never runs. The name is not that of the primary slot.
pub proof fn law_counting_loop(name: Seq<char>, bound: i64, env: Env, store: Store)
    requires
        name != Slot::Primary.cell(),
    ensures
        ({
            let made = lower_node(counting_loop(name, bound), env);
            let left = rounds(store[name], bound as int);
            &&& made is Ok
            &&& made->Ok_0.code == seq![
                InstrView::Scope(
                    loop_layout(counting_condition(name, bound), counting_body(name)),
                ),
            ]
            &&& run(made->Ok_0.code, 0, store, 4 * left + 4) matches Some(ran) && ran.returned
                is None && ran.steps == 3 * left + 1 && ran.store[name] == store[name] + left
        }),
{
    let left = rounds(store[name], bound as int);
    let layout = loop_layout(counting_condition(name, bound), counting_body(name));
    let code = seq![InstrView::Scope(layout)];
    lemma_counting_lowered(name, bound, env);
    lemma_counting_rounds(name, bound, store, left);
    let inner = run(layout, 0, store, 4 * left + 3)->Some_0;
    assert(run(code, 1, inner.store, 4 * left + 3) == Some(
        Ran { store: inner.store, steps: 0, returned: None },
    ));
    assert(run(code, 0, store, 4 * left + 4) == then(
        inner,
        run(code, 1, inner.store, 4 * left + 3),
    ));
}

} // verus!
