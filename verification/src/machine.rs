//! A reading of the target machine, as far as the laws of lowering speak of
//! what emitted code computes: the values of operands, the effect of moves,
//! arithmetic, comparisons and memory instructions on the named storage
//! cells and on the memory, and the order in which scopes, jumps and returns
//! let the instructions of a stream run. The marshaling stack and calls are
//! not read.

use vstd::prelude::*;
use crate::code::{Arith, InstrView, OperandView, Relation, Slot};

verus! {

/// The contents of the named storage cells.
pub type Cells = Map<Seq<char>, int>;

/// The storage cell that an operand names, if it names one.
pub open spec fn cell_of(operand: OperandView) -> Option<Seq<char>> {
    match operand {
        OperandView::Ident(name) => Some(name),
        OperandView::Scratch(slot) => Some(slot.cell()),
        _ => None,
    }
}

/// The value of an operand: an immediate is its own value, and a cell has
/// the value that it holds.
pub open spec fn value(operand: OperandView, cells: Cells) -> int {
    match operand {
        OperandView::Signed(number) => number as int,
        OperandView::Unsigned(number) => number as int,
        _ => match cell_of(operand) {
            Some(name) => cells[name],
            None => 0,
        },
    }
}

/// The quotient of two integers, rounded towards zero.
pub open spec fn quotient(left: int, right: int) -> int {
    if right > 0 {
        if left >= 0 {
            left / right
        } else {
            -((-left) / right)
        }
    } else {
        if left >= 0 {
            -(left / (-right))
        } else {
            (-left) / (-right)
        }
    }
}

/// What an arithmetic operation computes.
pub open spec fn computed(op: Arith, left: int, right: int) -> int {
    match op {
        Arith::Add => left + right,
        Arith::Sub => left - right,
        Arith::Mul => left * right,
        Arith::Div => quotient(left, right),
    }
}

/// Whether a relation holds.
pub open spec fn holds(relation: Relation, left: int, right: int) -> bool {
    match relation {
        Relation::Equal => left == right,
        Relation::NotEqual => left != right,
        Relation::Less => left < right,
        Relation::LessEqual => left <= right,
        Relation::Greater => left > right,
        Relation::GreaterEqual => left >= right,
    }
}

/// What the machine holds: the named storage cells, and the memory that
/// allocated blocks lie in.
pub struct Store {
    pub cells: Cells,
    pub memory: Seq<int>,
}

impl Store {
    /// What the cell of a name holds.
    pub open spec fn spec_index(self, name: Seq<char>) -> int {
        self.cells[name]
    }

    /// The store with a number in the cell of a name.
    pub open spec fn with(self, name: Seq<char>, number: int) -> Store {
        Store { cells: self.cells.insert(name, number), ..self }
    }
}

/// The store after a value has been stored in the cell of a destination.
pub open spec fn stored(target: OperandView, number: int, store: Store) -> Store {
    match cell_of(target) {
        Some(name) => store.with(name, number),
        None => store,
    }
}

/// A block of fresh memory cells.
pub open spec fn fresh(count: int) -> Seq<int> {
    Seq::new(
        if count > 0 {
            count as nat
        } else {
            0
        },
        |i: int| 0int,
    )
}

/// The store after one instruction. Moves, arithmetic, comparisons,
/// allocations, stores into blocks and loads through addresses are read;
/// every other instruction leaves the store as it is. A block is allocated
/// at the end of the memory, and an address is the index of a memory cell.
pub open spec fn after(instr: InstrView, store: Store) -> Store {
    let cells = store.cells;
    match instr {
        InstrView::Mov(source, target) => stored(target, value(source, cells), store),
        InstrView::Arith(op, left, right, target) => stored(
            target,
            computed(op, value(left, cells), value(right, cells)),
            store,
        ),
        InstrView::Compare(relation, left, right, target) => stored(
            target,
            if holds(relation, value(left, cells), value(right, cells)) {
                1
            } else {
                0
            },
            store,
        ),
        InstrView::Alloc(_, count, target) => stored(
            target,
            store.memory.len() as int,
            Store { memory: store.memory + fresh(value(count, cells)), ..store },
        ),
        InstrView::Pmov(source, base, index) => {
            let address = value(base, cells) + value(index, cells);
            if 0 <= address < store.memory.len() {
                Store { memory: store.memory.update(address, value(source, cells)), ..store }
            } else {
                store
            }
        },
        InstrView::Deref(address, target) => {
            let at = value(address, cells);
            if 0 <= at < store.memory.len() {
                stored(target, store.memory[at], store)
            } else {
                store
            }
        },
        _ => store,
    }
}

/// The store after a run of instructions, one after the other.
pub open spec fn after_all(code: Seq<InstrView>, store: Store) -> Store
    decreases code.len(),
{
    if code.len() == 0 {
        store
    } else {
        after_all(code.drop_first(), after(code[0], store))
    }
}

/// What a run of the machine comes to.
pub struct Ran {
    /// The store at the end.
    pub store: Store,
    /// How many instructions ran, scopes and jumps not counted.
    pub steps: nat,
    /// The value that was returned, if the run ended in a return.
    pub returned: Option<int>,
}

/// A run that follows a scope that ran to its end.
pub open spec fn then(first: Ran, rest: Option<Ran>) -> Option<Ran> {
    match rest {
        Some(rest) => Some(
            Ran { store: rest.store, steps: first.steps + rest.steps, returned: rest.returned },
        ),
        None => None,
    }
}

/// The run of the children of a scope from child `at` on, within a budget of
/// steps: none where the budget does not suffice. A scope runs its own
/// children and hands a return on; a jump goes on at the child that its target
/// indexes; past the last child, and before the first, the run is at its end.
pub open spec fn run(code: Seq<InstrView>, at: int, store: Store, fuel: nat) -> Option<Ran>
    decreases fuel,
{
    if at < 0 || at >= code.len() {
        Some(Ran { store, steps: 0, returned: None })
    } else if fuel == 0 {
        None
    } else {
        let fuel = (fuel - 1) as nat;
        match code[at] {
            InstrView::Scope(children) => match run(children, 0, store, fuel) {
                Some(first) => if first.returned is Some {
                    Some(first)
                } else {
                    then(first, run(code, at + 1, first.store, fuel))
                },
                None => None,
            },
            InstrView::Jne(left, right, target) => if value(left, store.cells) != value(
                right,
                store.cells,
            ) {
                run(code, value(target, store.cells), store, fuel)
            } else {
                run(code, at + 1, store, fuel)
            },
            InstrView::Jeq(left, right, target) => if value(left, store.cells) == value(
                right,
                store.cells,
            ) {
                run(code, value(target, store.cells), store, fuel)
            } else {
                run(code, at + 1, store, fuel)
            },
            InstrView::Jmp(target) => run(code, value(target, store.cells), store, fuel),
            InstrView::Ret(result) => Some(
                Ran { store, steps: 1, returned: Some(value(result, store.cells)) },
            ),
            instr => then(
                Ran { store, steps: 1, returned: None },
                run(code, at + 1, after(instr, store), fuel),
            ),
        }
    }
}

/// A run that comes to an end within a budget comes to the same end within
/// every larger one.
pub proof fn lemma_larger_budget(code: Seq<InstrView>, at: int, store: Store, fuel: nat, more: nat)
    requires
        run(code, at, store, fuel) is Some,
        fuel <= more,
    ensures
        run(code, at, store, more) == run(code, at, store, fuel),
    decreases fuel,
{
    if at < 0 || at >= code.len() {
    } else {
        let less = (fuel - 1) as nat;
        let most = (more - 1) as nat;
        match code[at] {
            InstrView::Scope(children) => {
                lemma_larger_budget(children, 0, store, less, most);
                let first = run(children, 0, store, less)->Some_0;
                if first.returned is None {
                    lemma_larger_budget(code, at + 1, first.store, less, most);
                }
            },
            InstrView::Jne(left, right, target) => {
                if value(left, store.cells) != value(right, store.cells) {
                    lemma_larger_budget(code, value(target, store.cells), store, less, most);
                } else {
                    lemma_larger_budget(code, at + 1, store, less, most);
                }
            },
            InstrView::Jeq(left, right, target) => {
                if value(left, store.cells) == value(right, store.cells) {
                    lemma_larger_budget(code, value(target, store.cells), store, less, most);
                } else {
                    lemma_larger_budget(code, at + 1, store, less, most);
                }
            },
            InstrView::Jmp(target) => {
                lemma_larger_budget(code, value(target, store.cells), store, less, most);
            },
            InstrView::Ret(_) => {},
            instr => {
                lemma_larger_budget(code, at + 1, after(instr, store), less, most);
            },
        }
    }
}

/// Whether an instruction lets the next one run: it is no scope, no jump and
/// no return.
pub open spec fn falls_through(instr: InstrView) -> bool {
    match instr {
        InstrView::Scope(_)
        | InstrView::Jne(_, _, _)
        | InstrView::Jeq(_, _, _)
        | InstrView::Jmp(_)
        | InstrView::Ret(_) => false,
        _ => true,
    }
}

/// Whether every instruction of a run lets the next one run.
pub open spec fn straight(code: Seq<InstrView>) -> bool {
    forall|i: int| 0 <= i < code.len() ==> falls_through(#[trigger] code[i])
}

/// A straight run of instructions before a return comes to the return of the
/// value that the cells hold after the run.
pub proof fn lemma_straight_return(
    code: Seq<InstrView>,
    result: OperandView,
    store: Store,
    fuel: nat,
)
    requires
        straight(code),
        fuel > code.len(),
    ensures
        run(code.push(InstrView::Ret(result)), 0, store, fuel) == Some(
            Ran {
                store: after_all(code, store),
                steps: code.len() + 1,
                returned: Some(value(result, after_all(code, store).cells)),
            },
        ),
{
    lemma_return_from(code, result, 0, store, fuel);
    assert(code.subrange(0, code.len() as int) =~= code);
}

/// A straight run of instructions before a return, from a place on.
proof fn lemma_return_from(
    code: Seq<InstrView>,
    result: OperandView,
    at: int,
    store: Store,
    fuel: nat,
)
    requires
        straight(code),
        0 <= at <= code.len(),
        fuel > code.len() - at,
    ensures
        run(code.push(InstrView::Ret(result)), at, store, fuel) == Some(
            Ran {
                store: after_all(code.subrange(at, code.len() as int), store),
                steps: (code.len() - at + 1) as nat,
                returned: Some(
                    value(result, after_all(code.subrange(at, code.len() as int), store).cells),
                ),
            },
        ),
    decreases code.len() - at,
{
    let whole = code.push(InstrView::Ret(result));
    let rest = code.subrange(at, code.len() as int);
    if at == code.len() {
        assert(rest.len() == 0);
        assert(whole[at] == InstrView::Ret(result));
    } else {
        assert(falls_through(code[at]));
        assert(whole[at] == code[at]);
        assert(rest[0] == code[at]);
        assert(rest.drop_first() =~= code.subrange(at + 1, code.len() as int));
        lemma_return_from(code, result, at + 1, after(code[at], store), (fuel - 1) as nat);
    }
}

/// The scratch slot that an instruction writes, if it writes one.
pub open spec fn written(instr: InstrView) -> Option<Slot> {
    let target = match instr {
        InstrView::Mov(_, target) => Some(target),
        InstrView::Arith(_, _, _, target) => Some(target),
        InstrView::Compare(_, _, _, target) => Some(target),
        InstrView::Alloc(_, _, target) => Some(target),
        InstrView::Deref(_, target) => Some(target),
        InstrView::Pop(target) => Some(target),
        _ => None,
    };
    match target {
        Some(OperandView::Scratch(slot)) => Some(slot),
        _ => None,
    }
}

/// How many instructions of a run write a scratch slot.
pub open spec fn writes(code: Seq<InstrView>, slot: Slot) -> nat
    decreases code.len(),
{
    if code.len() == 0 {
        0
    } else {
        writes(code.drop_first(), slot) + if written(code[0]) == Some(slot) {
            1nat
        } else {
            0nat
        }
    }
}

} // verus!
