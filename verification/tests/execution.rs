use myst::code::{Arith, Instr, Operand, Relation, Repr, Slot, Unit};
use myst::engine::eval;
use myst::enums::{Expr, Operator};
use myst::parser::Parser;
use myst::symbols::{CompileError, SymbolTable};
use myst::tokenizer::tokenize;
use std::collections::HashMap;

// A small reading of the target machine, enough to run what the tests compile.

struct Machine {
    cells: HashMap<String, i64>,
    memory: Vec<i64>,
    stack: Vec<i64>,
    functions: HashMap<String, (Vec<String>, Vec<Instr>)>,
    trace: Vec<Instr>,
    steps: usize,
}

fn machine() -> Machine {
    Machine {
        cells: HashMap::new(),
        memory: Vec::new(),
        stack: Vec::new(),
        functions: HashMap::new(),
        trace: Vec::new(),
        steps: 0,
    }
}

fn cell_name(operand: &Operand) -> String {
    match operand {
        Operand::Ident(name) => name.clone(),
        Operand::NameValue(name) => name.clone(),
        Operand::Name(name) => name.clone(),
        Operand::Scratch(slot) => slot.name(),
        other => panic!("not a cell: {:?}", other),
    }
}

fn value_of(machine: &Machine, operand: &Operand) -> i64 {
    match operand {
        Operand::Signed(number) => *number,
        Operand::Unsigned(number) => *number as i64,
        other => {
            let name = cell_name(other);
            match machine.cells.get(&name) {
                Some(number) => *number,
                None => panic!("no cell {:?}", name),
            }
        }
    }
}

fn store(machine: &mut Machine, target: &Operand, number: i64) {
    machine.cells.insert(cell_name(target), number);
}

fn run_children(machine: &mut Machine, children: &Vec<Instr>) -> Option<i64> {
    let mut at: usize = 0;
    while at < children.len() {
        machine.steps += 1;
        assert!(machine.steps < 100000);
        let instr = &children[at];
        match instr {
            Instr::Scope(inner) => {
                if let Some(result) = run_children(machine, inner) {
                    return Some(result);
                }
                at += 1;
                continue;
            }
            Instr::Jne(left, right, target) => {
                if value_of(machine, left) != value_of(machine, right) {
                    at = value_of(machine, target) as usize;
                } else {
                    at += 1;
                }
                continue;
            }
            Instr::Jeq(left, right, target) => {
                if value_of(machine, left) == value_of(machine, right) {
                    at = value_of(machine, target) as usize;
                } else {
                    at += 1;
                }
                continue;
            }
            Instr::Jmp(target) => {
                at = value_of(machine, target) as usize;
                continue;
            }
            _ => {}
        }
        machine.trace.push(instr.clone());
        match instr {
            Instr::Var(_, name) => {
                machine.cells.insert(name.clone(), 0);
            }
            Instr::Mov(source, target) => {
                let number = value_of(machine, source);
                store(machine, target, number);
            }
            Instr::Arith(op, left, right, target) => {
                let a = value_of(machine, left);
                let b = value_of(machine, right);
                let number = match op {
                    Arith::Add => a + b,
                    Arith::Sub => a - b,
                    Arith::Mul => a * b,
                    Arith::Div => a / b,
                };
                store(machine, target, number);
            }
            Instr::Compare(relation, left, right, target) => {
                let a = value_of(machine, left);
                let b = value_of(machine, right);
                let holds = match relation {
                    Relation::Equal => a == b,
                    Relation::NotEqual => a != b,
                    Relation::Less => a < b,
                    Relation::LessEqual => a <= b,
                    Relation::Greater => a > b,
                    Relation::GreaterEqual => a >= b,
                };
                store(machine, target, if holds { 1 } else { 0 });
            }
            Instr::Alloc(_, count, target) => {
                let base = machine.memory.len() as i64;
                let count = value_of(machine, count);
                for _ in 0..count {
                    machine.memory.push(0);
                }
                store(machine, target, base);
            }
            Instr::Pmov(source, base, index) => {
                let at = value_of(machine, base) + value_of(machine, index);
                machine.memory[at as usize] = value_of(machine, source);
            }
            Instr::Deref(address, target) => {
                let number = machine.memory[value_of(machine, address) as usize];
                store(machine, target, number);
            }
            Instr::Push(value) => {
                let number = value_of(machine, value);
                machine.stack.push(number);
            }
            Instr::Pop(target) => {
                let number = machine.stack.pop().unwrap();
                store(machine, target, number);
            }
            Instr::Function(name, params, _, body) => {
                let names = params.iter().map(|param| param.name.clone()).collect();
                machine.functions.insert(name.clone(), (names, body.clone()));
            }
            Instr::Call(callee) => {
                let name = cell_name(callee);
                let (params, body) = match machine.functions.get(&name) {
                    Some((params, body)) => (params.clone(), body.clone()),
                    None => panic!("no function {:?}", name),
                };
                for param in params.iter().rev() {
                    let number = machine.stack.pop().unwrap();
                    machine.cells.insert(param.clone(), number);
                }
                let result = run_children(machine, &body).unwrap_or(0);
                machine.stack.push(result);
            }
            Instr::Ret(value) => {
                return Some(value_of(machine, value));
            }
            Instr::Import(_) => {}
            Instr::Nop => {}
            Instr::Scope(_) | Instr::Jne(_, _, _) | Instr::Jeq(_, _, _) | Instr::Jmp(_) => {
                unreachable!()
            }
        }
        at += 1;
    }
    None
}

fn seeded() -> Unit {
    let mut unit = Unit::new();
    unit.emit(Instr::Var(Repr::Scalar, Slot::Primary.name()));
    unit.emit(Instr::Var(Repr::Scalar, Slot::Secondary.name()));
    unit.emit(Instr::Var(Repr::Scalar, Slot::Aggregate.name()));
    unit.emit(Instr::Var(Repr::Struct, Slot::Struct.name()));
    unit
}

fn compile_tree(ast: Vec<Expr>) -> Vec<Instr> {
    match eval(ast, seeded(), SymbolTable::new()) {
        Ok((unit, _)) => unit.code,
        Err(error) => panic!("lowering failed: {:?}", error),
    }
}

fn compile_source(source: &str) -> Vec<Instr> {
    let tokens = tokenize(source.to_string()).unwrap();
    let ast = Parser::new(tokens).parse().unwrap();
    compile_tree(ast)
}

fn run_traced(code: &Vec<Instr>) -> (Option<i64>, Machine) {
    let mut machine = machine();
    let result = run_children(&mut machine, code);
    (result, machine)
}

fn run_source(source: &str) -> Option<i64> {
    run_traced(&compile_source(source)).0
}

fn literal_operation(operator: Operator, left: i64, right: i64) -> Option<i64> {
    let tree = vec![Expr::Return(Box::new(Expr::BinOp(
        operator,
        Box::new(Expr::Number(left)),
        Box::new(Expr::Number(right)),
    )))];
    run_traced(&compile_tree(tree)).0
}

#[test]
fn literal_arithmetic_computes_what_the_operation_computes() {
    for (left, right) in vec![(2, 3), (0, 7), (-5, 4), (100, -9), (69, 1), (-8, -2)] {
        assert_eq!(literal_operation(Operator::Add, left, right), Some(left + right));
        assert_eq!(literal_operation(Operator::Subtract, left, right), Some(left - right));
        assert_eq!(literal_operation(Operator::Multiply, left, right), Some(left * right));
        assert_eq!(literal_operation(Operator::Divide, left, right), Some(left / right));
    }
    assert_eq!(literal_operation(Operator::Add, 2, 3), Some(5));
    assert_eq!(run_source("return 2 + 3;"), Some(5));
    assert_eq!(run_source("return 7 - 10;"), Some(-3));
    assert_eq!(run_source("return 6 * 7;"), Some(42));
    assert_eq!(run_source("return 9 / 2;"), Some(4));
}

#[test]
fn a_declared_sum_is_returned() {
    assert_eq!(run_source("let x: Number = 2 + 3; return x;"), Some(5));
    assert_eq!(run_source("let x = 2; let y = x; return y + 3;"), Some(5));
}

#[test]
fn a_sum_declared_without_its_kind_is_unresolved() {
    let tokens = tokenize("let x = 2 + 3; return x;".to_string()).unwrap();
    let ast = Parser::new(tokens).parse().unwrap();
    assert_eq!(
        eval(ast, seeded(), SymbolTable::new()).err(),
        Some(CompileError::UnresolvedSymbol)
    );
}

#[test]
fn nested_sums_keep_the_left_result() {
    let tree = vec![Expr::Return(Box::new(Expr::BinOp(
        Operator::Multiply,
        Box::new(Expr::BinOp(
            Operator::Add,
            Box::new(Expr::Number(1)),
            Box::new(Expr::Number(2)),
        )),
        Box::new(Expr::BinOp(
            Operator::Add,
            Box::new(Expr::Number(3)),
            Box::new(Expr::Number(4)),
        )),
    )))];
    assert_eq!(run_traced(&compile_tree(tree)).0, Some(21));
    assert_eq!(run_source("return 1 + 2 + 3 + 4;"), Some(10));
}

fn sum_of(left: Expr, right: Expr) -> Expr {
    Expr::BinOp(Operator::Add, Box::new(left), Box::new(right))
}

#[test]
fn deep_trees_that_lean_to_the_left_compute_their_value() {
    let mut tree = sum_of(Expr::Number(1), Expr::Number(2));
    let mut expected = 3;
    for step in 3..40 {
        let subtracts = step % 2 == 0;
        tree = Expr::BinOp(
            if subtracts { Operator::Subtract } else { Operator::Multiply },
            Box::new(tree),
            Box::new(sum_of(Expr::Number(step % 3), Expr::Number(1))),
        );
        expected = if subtracts {
            expected - (step % 3 + 1)
        } else {
            expected * (step % 3 + 1)
        };
    }
    let code = compile_tree(vec![Expr::Return(Box::new(tree))]);
    assert_eq!(run_traced(&code).0, Some(expected));
}

#[test]
fn a_right_side_that_has_to_wait_itself_overwrites_the_left_result() {
    let tree = sum_of(
        sum_of(Expr::Number(1), Expr::Number(2)),
        sum_of(
            sum_of(Expr::Number(3), Expr::Number(4)),
            sum_of(Expr::Number(5), Expr::Number(6)),
        ),
    );
    let code = compile_tree(vec![Expr::Return(Box::new(tree))]);
    assert_eq!(run_traced(&code).0, Some(7 + 18));
}

#[test]
fn a_conditional_runs_exactly_the_branch_that_holds() {
    let taken = compile_source("if 1 < 2 { return 69; } else { return 0; }");
    let (result, machine) = run_traced(&taken);
    assert_eq!(result, Some(69));
    assert!(!machine
        .trace
        .iter()
        .any(|instr| *instr == Instr::Mov(Operand::Signed(0), Operand::Scratch(Slot::Primary))));

    let other = compile_source("if 2 < 1 { return 69; } else { return 0; }");
    let (result, machine) = run_traced(&other);
    assert_eq!(result, Some(0));
    assert!(!machine
        .trace
        .iter()
        .any(|instr| *instr == Instr::Mov(Operand::Signed(69), Operand::Scratch(Slot::Primary))));
}

#[test]
fn a_conditional_without_else_falls_through() {
    assert_eq!(run_source("if 2 < 1 { return 1; } return 2;"), Some(2));
    assert_eq!(run_source("if 1 < 2 { pass; } return 2;"), Some(2));
    assert_eq!(
        run_source("let a: Number = 2; if a == 1 { return 10; } else if a == 2 { return 20; } else { return 30; }"),
        Some(20)
    );
}

fn count_additions(machine: &Machine) -> usize {
    machine
        .trace
        .iter()
        .filter(|instr| matches!(instr, Instr::Arith(Arith::Add, _, _, _)))
        .count()
}

#[test]
fn a_loop_whose_condition_starts_false_never_runs_its_body() {
    let code = compile_source("let i: Number = 5; while i < 3 { i += 1; } return i;");
    let (result, machine) = run_traced(&code);
    assert_eq!(result, Some(5));
    assert_eq!(count_additions(&machine), 0);
}

#[test]
fn a_counting_loop_runs_its_body_once_for_each_count() {
    for bound in vec![0, 1, 3, 10, 69] {
        let code = compile_source(&format!(
            "let i: Number = 0; while i < {} {{ i += 1; }} return i;",
            bound
        ));
        let (result, machine) = run_traced(&code);
        assert_eq!(result, Some(bound));
        assert_eq!(count_additions(&machine), bound as usize);
    }
}

#[test]
fn array_elements_are_read_by_their_index() {
    assert_eq!(run_source("let a: Number = [1, 2, 3]; return a[1];"), Some(2));
    assert_eq!(run_source("let a: Number = [1, 2, 3]; return a[0];"), Some(1));
    assert_eq!(run_source("let a: Number = [1, 2, 3]; return a[2];"), Some(3));
    assert_eq!(
        run_source("let a = [1, 2, 3]; let i = 2; return a[i];"),
        Some(3)
    );
    assert_eq!(
        run_source("let x = 5; let a = [x, x + 1, 7]; return a[1];"),
        Some(6)
    );
}

#[test]
fn every_array_access_computes_its_address_anew() {
    let code = compile_source("let a = [1, 2, 3]; let x: Number = a[0]; let y: Number = a[2]; return y;");
    let (result, machine) = run_traced(&code);
    assert_eq!(result, Some(3));
    let loads = machine
        .trace
        .iter()
        .filter(|instr| matches!(instr, Instr::Deref(_, _)))
        .count();
    let sums = machine
        .trace
        .iter()
        .filter(|instr| {
            **instr
                == Instr::Arith(
                    Arith::Add,
                    Operand::Ident("a".to_string()),
                    Operand::Scratch(Slot::Primary),
                    Operand::Scratch(Slot::Primary),
                )
        })
        .count();
    assert_eq!(loads, 2);
    assert_eq!(sums, 2);
}

#[test]
fn a_call_leaves_one_value_in_the_primary_slot() {
    let code = compile_source("fn add(a, b) { return a + b; } let r = add(2, 3); return r + 64;");
    let (result, machine) = run_traced(&code);
    assert_eq!(result, Some(69));
    assert_eq!(machine.stack, Vec::<i64>::new());
}
