use myst::code::{Arith, Instr, Operand, Param, Relation, Repr, Slot, Unit};
use myst::engine::{eval, infer_type};
use myst::enums::{Expr, MType, Operator};
use myst::symbols::{CompileError, Kind, Payload, SymbolTable};

fn ident(name: &str) -> Expr {
    Expr::Identifier(name.to_string())
}

fn binop(operator: Operator, left: Expr, right: Expr) -> Expr {
    Expr::BinOp(operator, Box::new(left), Box::new(right))
}

fn call_of(name: &str, args: Vec<Expr>) -> Expr {
    Expr::CallFunc(Box::new(ident(name)), Box::new(args))
}

fn member(object: &str, inner: Expr) -> Expr {
    Expr::PropertyAccess(Box::new(ident(object)), Box::new(inner))
}

fn cell(name: &str) -> Operand {
    Operand::Ident(name.to_string())
}

fn primary() -> Operand {
    Operand::Scratch(Slot::Primary)
}

fn secondary() -> Operand {
    Operand::Scratch(Slot::Secondary)
}

fn aggregate() -> Operand {
    Operand::Scratch(Slot::Aggregate)
}

fn record() -> Operand {
    Operand::Scratch(Slot::Struct)
}

fn by_name(name: &str) -> Instr {
    Instr::Call(Operand::Name(name.to_string()))
}

fn env_of(entries: Vec<(&str, Kind)>) -> SymbolTable {
    let mut table = SymbolTable::new();
    for (name, kind) in entries {
        table.record(name.to_string(), kind);
    }
    table
}

fn lower_with(ast: Vec<Expr>, env: SymbolTable) -> Result<(Unit, SymbolTable), CompileError> {
    eval(ast, Unit::new(), env)
}

fn code_with(ast: Vec<Expr>, env: SymbolTable) -> Vec<Instr> {
    match lower_with(ast, env) {
        Ok((unit, _)) => unit.code,
        Err(error) => panic!("lowering failed: {:?}", error),
    }
}

fn code_of(ast: Vec<Expr>) -> Vec<Instr> {
    code_with(ast, SymbolTable::new())
}

fn error_of(ast: Vec<Expr>) -> CompileError {
    match lower_with(ast, SymbolTable::new()) {
        Ok(_) => panic!("lowering succeeded"),
        Err(error) => error,
    }
}

#[test]
fn an_empty_tree_emits_nothing() {
    let (unit, _) = lower_with(vec![], SymbolTable::new()).unwrap();
    assert_eq!(unit.code, vec![]);
    assert_eq!(unit.strings, Vec::<String>::new());
}

#[test]
fn the_scratch_slots_have_their_cells() {
    assert_eq!(Slot::Primary.name(), "temp");
    assert_eq!(Slot::Secondary.name(), "temp2");
    assert_eq!(Slot::Aggregate.name(), "temp3");
    assert_eq!(Slot::Struct.name(), "temp_struct");
}

#[test]
fn two_literals_are_combined_by_one_instruction() {
    assert_eq!(
        code_of(vec![binop(Operator::Add, Expr::Number(2), Expr::Number(3))]),
        vec![Instr::Arith(
            Arith::Add,
            Operand::Signed(2),
            Operand::Signed(3),
            primary(),
        )]
    );
}

#[test]
fn every_arithmetic_operator_has_its_instruction() {
    let cases = vec![
        (Operator::Add, Arith::Add),
        (Operator::Subtract, Arith::Sub),
        (Operator::Multiply, Arith::Mul),
        (Operator::Divide, Arith::Div),
    ];
    for (operator, op) in cases {
        assert_eq!(
            code_of(vec![binop(operator, Expr::Number(-7), ident("x"))]),
            vec![Instr::Arith(op, Operand::Signed(-7), cell("x"), primary())]
        );
    }
}

#[test]
fn every_comparison_has_its_relation() {
    let cases = vec![
        (Operator::Equality, Relation::Equal),
        (Operator::NotEqual, Relation::NotEqual),
        (Operator::Lesser, Relation::Less),
        (Operator::LesserEqual, Relation::LessEqual),
        (Operator::Greater, Relation::Greater),
        (Operator::GreaterEqual, Relation::GreaterEqual),
    ];
    for (operator, relation) in cases {
        assert_eq!(
            code_of(vec![binop(operator, ident("a"), Expr::Number(1))]),
            vec![Instr::Compare(relation, cell("a"), Operand::Signed(1), primary())]
        );
    }
}

#[test]
fn a_direct_left_waits_for_the_evaluated_right() {
    assert_eq!(
        code_of(vec![binop(
            Operator::Subtract,
            Expr::Number(10),
            binop(Operator::Multiply, Expr::Number(2), Expr::Number(3)),
        )]),
        vec![
            Instr::Arith(Arith::Mul, Operand::Signed(2), Operand::Signed(3), primary()),
            Instr::Arith(Arith::Sub, Operand::Signed(10), primary(), primary()),
        ]
    );
}

#[test]
fn an_evaluated_left_is_combined_in_place_with_a_direct_right() {
    assert_eq!(
        code_of(vec![binop(
            Operator::Add,
            binop(Operator::Add, Expr::Number(1), Expr::Number(2)),
            Expr::Number(3),
        )]),
        vec![
            Instr::Arith(Arith::Add, Operand::Signed(1), Operand::Signed(2), primary()),
            Instr::Arith(Arith::Add, primary(), Operand::Signed(3), primary()),
        ]
    );
}

#[test]
fn two_evaluated_sides_use_the_secondary_slot_once() {
    let code = code_of(vec![binop(
        Operator::Add,
        binop(Operator::Add, Expr::Number(1), Expr::Number(2)),
        binop(Operator::Add, Expr::Number(3), Expr::Number(4)),
    )]);
    assert_eq!(
        code,
        vec![
            Instr::Arith(Arith::Add, Operand::Signed(1), Operand::Signed(2), primary()),
            Instr::Mov(primary(), secondary()),
            Instr::Arith(Arith::Add, Operand::Signed(3), Operand::Signed(4), primary()),
            Instr::Arith(Arith::Add, secondary(), primary(), primary()),
        ]
    );
    let writes = code
        .iter()
        .filter(|instr| match instr {
            Instr::Mov(_, target) => *target == secondary(),
            Instr::Arith(_, _, _, target) => *target == secondary(),
            Instr::Compare(_, _, _, target) => *target == secondary(),
            Instr::Pop(target) => *target == secondary(),
            _ => false,
        })
        .count();
    assert_eq!(writes, 1);
    let reads = code
        .iter()
        .filter(|instr| match instr {
            Instr::Arith(_, left, right, _) => *left == secondary() || *right == secondary(),
            Instr::Mov(source, _) => *source == secondary(),
            _ => false,
        })
        .count();
    assert_eq!(reads, 1);
}

#[test]
fn a_string_on_the_left_of_an_operation_is_unsupported() {
    assert_eq!(
        error_of(vec![binop(
            Operator::Equality,
            Expr::String("a".to_string()),
            Expr::Number(1),
        )]),
        CompileError::UnsupportedConstruct
    );
    assert_eq!(
        error_of(vec![binop(
            Operator::Add,
            Expr::String("a".to_string()),
            call_of("f", vec![]),
        )]),
        CompileError::UnsupportedConstruct
    );
}

#[test]
fn a_string_on_the_right_becomes_a_string_value() {
    assert_eq!(
        code_with(
            vec![binop(Operator::Equality, ident("s"), Expr::String("hi".to_string()))],
            env_of(vec![("string.new", Kind::Struct)]),
        ),
        vec![
            Instr::Push(Operand::Pooled("hi".to_string())),
            Instr::Push(Operand::Unsigned(2)),
            by_name("string.new"),
            Instr::Pop(record()),
            Instr::Compare(Relation::Equal, cell("s"), record(), primary()),
        ]
    );
}

#[test]
fn a_declaration_with_an_annotation_creates_the_cell_and_moves_the_value() {
    let (unit, env) = lower_with(
        vec![binop(
            Operator::Declare(MType::Number),
            ident("x"),
            binop(Operator::Add, Expr::Number(2), Expr::Number(3)),
        )],
        SymbolTable::new(),
    )
    .unwrap();
    assert_eq!(
        unit.code,
        vec![
            Instr::Var(Repr::Scalar, "x".to_string()),
            Instr::Arith(Arith::Add, Operand::Signed(2), Operand::Signed(3), primary()),
            Instr::Mov(primary(), cell("x")),
        ]
    );
    assert_eq!(env.lookup(&"x".to_string()), Ok(Kind::Number));
}

#[test]
fn a_declaration_of_a_direct_value_moves_it_directly() {
    assert_eq!(
        code_of(vec![binop(
            Operator::Declare(MType::Number),
            ident("x"),
            Expr::Number(5),
        )]),
        vec![
            Instr::Var(Repr::Scalar, "x".to_string()),
            Instr::Mov(Operand::Signed(5), cell("x")),
        ]
    );
    assert_eq!(
        code_of(vec![binop(
            Operator::Declare(MType::Struct),
            ident("x"),
            ident("y"),
        )]),
        vec![
            Instr::Var(Repr::Struct, "x".to_string()),
            Instr::Mov(cell("y"), cell("x")),
        ]
    );
}

#[test]
fn a_declaration_without_annotation_infers_the_kind() {
    let (unit, env) = lower_with(
        vec![
            binop(Operator::Declare(MType::Undefined), ident("n"), Expr::Number(1)),
            binop(Operator::Declare(MType::Undefined), ident("m"), ident("n")),
            binop(
                Operator::Declare(MType::Undefined),
                ident("a"),
                Expr::Array(Box::new(vec![])),
            ),
            binop(
                Operator::Declare(MType::Undefined),
                ident("r"),
                call_of("read", vec![]),
            ),
            binop(Operator::Declare(MType::Undefined), ident("c"), ident("cb")),
            binop(Operator::Declare(MType::Undefined), ident("v"), ident("nothing")),
        ],
        env_of(vec![
            ("read", Kind::Struct),
            ("cb", Kind::Callback),
            ("nothing", Kind::Null),
        ]),
    )
    .unwrap();
    assert_eq!(
        unit.code,
        vec![
            Instr::Var(Repr::Scalar, "n".to_string()),
            Instr::Mov(Operand::Signed(1), cell("n")),
            Instr::Var(Repr::Scalar, "m".to_string()),
            Instr::Mov(cell("n"), cell("m")),
            Instr::Var(Repr::Scalar, "a".to_string()),
            Instr::Alloc(Repr::Scalar, Operand::Signed(0), aggregate()),
            Instr::Mov(aggregate(), primary()),
            Instr::Mov(primary(), cell("a")),
            Instr::Var(Repr::Struct, "r".to_string()),
            by_name("read"),
            Instr::Pop(record()),
            Instr::Mov(record(), cell("r")),
            Instr::Var(Repr::Pointer, "c".to_string()),
            Instr::Mov(cell("cb"), cell("c")),
            Instr::Var(Repr::Void, "v".to_string()),
            Instr::Mov(cell("nothing"), cell("v")),
        ]
    );
    assert_eq!(env.lookup(&"n".to_string()), Ok(Kind::Number));
    assert_eq!(env.lookup(&"m".to_string()), Ok(Kind::Number));
    assert_eq!(env.lookup(&"a".to_string()), Ok(Kind::Number));
    assert_eq!(env.lookup(&"r".to_string()), Ok(Kind::Struct));
    assert_eq!(env.lookup(&"c".to_string()), Ok(Kind::Callback));
    assert_eq!(env.lookup(&"v".to_string()), Ok(Kind::Null));
}

#[test]
fn a_declared_string_is_built_by_the_string_maker() {
    let (unit, env) = lower_with(
        vec![binop(
            Operator::Declare(MType::Undefined),
            ident("s"),
            Expr::String("héllo".to_string()),
        )],
        env_of(vec![("string.new", Kind::Struct)]),
    )
    .unwrap();
    assert_eq!(
        unit.code,
        vec![
            Instr::Var(Repr::Struct, "s".to_string()),
            Instr::Push(Operand::Pooled("héllo".to_string())),
            Instr::Push(Operand::Unsigned(6)),
            by_name("string.new"),
            Instr::Pop(record()),
            Instr::Mov(record(), cell("s")),
        ]
    );
    assert_eq!(unit.strings, vec!["héllo".to_string()]);
    assert_eq!(env.lookup(&"s".to_string()), Ok(Kind::String));
}

#[test]
fn a_kind_that_cannot_be_inferred_is_unresolved() {
    assert_eq!(
        error_of(vec![binop(
            Operator::Declare(MType::Undefined),
            ident("x"),
            binop(Operator::Add, Expr::Number(2), Expr::Number(3)),
        )]),
        CompileError::UnresolvedSymbol
    );
    assert_eq!(
        error_of(vec![binop(
            Operator::Declare(MType::Undefined),
            ident("x"),
            ident("unknown"),
        )]),
        CompileError::UnresolvedSymbol
    );
    assert_eq!(
        error_of(vec![binop(
            Operator::Declare(MType::Undefined),
            ident("x"),
            call_of("unknown", vec![]),
        )]),
        CompileError::UnresolvedSymbol
    );
}

#[test]
fn infers_kinds_of_nodes() {
    let env = env_of(vec![("f", Kind::String), ("x", Kind::CallbackOf(Payload::Number))]);
    assert_eq!(infer_type(&Expr::Number(1), &env), Ok(Kind::Number));
    assert_eq!(infer_type(&Expr::String("s".to_string()), &env), Ok(Kind::String));
    assert_eq!(infer_type(&Expr::Array(Box::new(vec![ident("q")])), &env), Ok(Kind::Number));
    assert_eq!(infer_type(&ident("x"), &env), Ok(Kind::CallbackOf(Payload::Number)));
    assert_eq!(infer_type(&ident("y"), &env), Err(CompileError::UnresolvedSymbol));
    assert_eq!(infer_type(&call_of("f", vec![Expr::Number(1)]), &env), Ok(Kind::String));
    assert_eq!(infer_type(&call_of("g", vec![]), &env), Err(CompileError::UnresolvedSymbol));
    assert_eq!(
        infer_type(
            &Expr::CallFunc(Box::new(Expr::Number(1)), Box::new(vec![])),
            &env
        ),
        Err(CompileError::MalformedCallee)
    );
    assert_eq!(infer_type(&Expr::Pass, &env), Err(CompileError::UnresolvedSymbol));
    assert_eq!(
        infer_type(&binop(Operator::Add, Expr::Number(1), Expr::Number(2)), &env),
        Err(CompileError::UnresolvedSymbol)
    );
}

#[test]
fn an_annotation_without_a_representation_is_unsupported() {
    for annotation in vec![MType::Function, MType::Class, MType::Null, MType::I64, MType::F32] {
        assert_eq!(
            error_of(vec![binop(
                Operator::Declare(annotation),
                ident("x"),
                Expr::Number(1),
            )]),
            CompileError::UnsupportedConstruct
        );
    }
}

#[test]
fn a_declaration_target_has_to_be_a_name() {
    assert_eq!(
        error_of(vec![binop(
            Operator::Declare(MType::Number),
            Expr::Number(1),
            Expr::Number(2),
        )]),
        CompileError::InvalidDeclarationTarget
    );
    assert_eq!(
        error_of(vec![binop(
            Operator::Declare(MType::Undefined),
            Expr::ArrayAccess("a".to_string(), Box::new(Expr::Number(0))),
            ident("unknown"),
        )]),
        CompileError::InvalidDeclarationTarget
    );
}

#[test]
fn an_assignment_moves_the_value_into_the_name() {
    let (unit, env) = lower_with(
        vec![
            binop(Operator::Assign, ident("x"), Expr::Number(5)),
            binop(Operator::Assign, ident("x"), ident("y")),
            binop(
                Operator::Assign,
                ident("x"),
                binop(Operator::Add, ident("x"), Expr::Number(1)),
            ),
        ],
        SymbolTable::new(),
    )
    .unwrap();
    assert_eq!(
        unit.code,
        vec![
            Instr::Mov(Operand::Signed(5), cell("x")),
            Instr::Mov(cell("y"), cell("x")),
            Instr::Arith(Arith::Add, cell("x"), Operand::Signed(1), primary()),
            Instr::Mov(primary(), cell("x")),
        ]
    );
    assert_eq!(env.find(&"x".to_string()), None);
}

#[test]
fn an_assignment_target_has_to_be_a_name() {
    assert_eq!(
        error_of(vec![binop(
            Operator::Assign,
            Expr::ArrayAccess("a".to_string(), Box::new(Expr::Number(0))),
            Expr::Number(2),
        )]),
        CompileError::InvalidAssignmentTarget
    );
    assert_eq!(
        error_of(vec![binop(Operator::Assign, Expr::Number(1), Expr::Number(2))]),
        CompileError::InvalidAssignmentTarget
    );
}

#[test]
fn literals_and_identifiers_are_moved_to_the_primary_slot() {
    assert_eq!(
        code_of(vec![Expr::Number(7), ident("x")]),
        vec![
            Instr::Mov(Operand::Signed(7), primary()),
            Instr::Mov(cell("x"), primary()),
        ]
    );
}

#[test]
fn a_string_statement_pools_and_pushes() {
    let (unit, _) = lower_with(
        vec![Expr::String("ab".to_string()), Expr::String(String::new())],
        SymbolTable::new(),
    )
    .unwrap();
    assert_eq!(
        unit.code,
        vec![
            Instr::Push(Operand::Pooled("ab".to_string())),
            Instr::Push(Operand::Unsigned(2)),
            Instr::Push(Operand::Pooled(String::new())),
            Instr::Push(Operand::Unsigned(0)),
        ]
    );
    assert_eq!(unit.strings, vec!["ab".to_string(), String::new()]);
}

#[test]
fn an_array_is_allocated_filled_and_handed_over() {
    assert_eq!(
        code_of(vec![Expr::Array(Box::new(vec![
            Expr::Number(1),
            ident("x"),
            binop(Operator::Add, Expr::Number(2), Expr::Number(3)),
        ]))]),
        vec![
            Instr::Alloc(Repr::Scalar, Operand::Signed(3), aggregate()),
            Instr::Pmov(Operand::Signed(1), aggregate(), Operand::Signed(0)),
            Instr::Pmov(cell("x"), aggregate(), Operand::Signed(1)),
            Instr::Arith(Arith::Add, Operand::Signed(2), Operand::Signed(3), primary()),
            Instr::Pmov(primary(), aggregate(), Operand::Signed(2)),
            Instr::Mov(aggregate(), primary()),
        ]
    );
}

#[test]
fn an_array_access_adds_the_index_to_the_base_and_loads() {
    assert_eq!(
        code_of(vec![
            Expr::ArrayAccess("a".to_string(), Box::new(Expr::Number(1))),
            Expr::ArrayAccess("a".to_string(), Box::new(ident("i"))),
        ]),
        vec![
            Instr::Mov(Operand::Signed(1), primary()),
            Instr::Arith(Arith::Add, cell("a"), primary(), primary()),
            Instr::Deref(primary(), primary()),
            Instr::Mov(cell("i"), primary()),
            Instr::Arith(Arith::Add, cell("a"), primary(), primary()),
            Instr::Deref(primary(), primary()),
        ]
    );
}

#[test]
fn a_callee_recorded_as_a_number_has_its_result_popped_once() {
    let code = code_with(
        vec![call_of("f", vec![Expr::Number(1)])],
        env_of(vec![("f", Kind::Number)]),
    );
    assert_eq!(
        code,
        vec![
            Instr::Push(Operand::Signed(1)),
            by_name("f"),
            Instr::Pop(primary()),
        ]
    );
    let pops = code
        .iter()
        .filter(|instr| matches!(instr, Instr::Pop(_)))
        .count();
    assert_eq!(pops, 1);
}

#[test]
fn a_callee_that_hands_nothing_back_has_nothing_popped() {
    for kind in vec![Kind::Null, Kind::Callback] {
        let code = code_with(
            vec![call_of("f", vec![Expr::Number(1)])],
            env_of(vec![("f", kind)]),
        );
        assert_eq!(code.len(), 3);
        assert_eq!(code[2], Instr::Nop);
        assert!(!code.iter().any(|instr| matches!(instr, Instr::Pop(_))));
        assert!(!code.iter().any(|instr| match instr {
            Instr::Mov(_, target) => *target == primary(),
            _ => false,
        }));
    }
}

#[test]
fn a_callee_without_an_entry_falls_back_to_the_number_convention() {
    let (unit, env) = lower_with(
        vec![call_of("mystery", vec![ident("x")])],
        SymbolTable::new(),
    )
    .unwrap();
    assert_eq!(
        unit.code,
        vec![
            Instr::Push(Operand::NameValue("x".to_string())),
            by_name("mystery"),
            Instr::Pop(primary()),
        ]
    );
    assert_eq!(env.find(&"mystery".to_string()), None);
}

#[test]
fn results_are_retrieved_by_the_kind_of_the_callee() {
    let cases = vec![
        (Kind::Number, by_name("f"), Instr::Pop(primary())),
        (Kind::String, by_name("f"), Instr::Pop(record())),
        (Kind::Struct, by_name("f"), Instr::Pop(record())),
        (Kind::Undefined, by_name("f"), Instr::Pop(primary())),
        (Kind::Null, by_name("f"), Instr::Nop),
        (Kind::Callback, Instr::Call(cell("f")), Instr::Nop),
        (
            Kind::CallbackOf(Payload::Number),
            Instr::Call(cell("f")),
            Instr::Pop(primary()),
        ),
        (
            Kind::CallbackOf(Payload::String),
            Instr::Call(cell("f")),
            Instr::Pop(primary()),
        ),
    ];
    for (kind, call, retrieval) in cases {
        assert_eq!(
            code_with(vec![call_of("f", vec![])], env_of(vec![("f", kind)])),
            vec![call, retrieval]
        );
    }
}

#[test]
fn arguments_are_pushed_from_left_to_right() {
    let (unit, env) = lower_with(
        vec![call_of(
            "f",
            vec![
                Expr::Number(1),
                ident("x"),
                Expr::String("s".to_string()),
                binop(Operator::Add, ident("a"), Expr::Number(2)),
                call_of("g", vec![]),
                call_of("h", vec![]),
                Expr::DecFunc(
                    "anonymous".to_string(),
                    vec![],
                    Box::new(vec![Expr::Pass]),
                    MType::Null,
                ),
            ],
        )],
        env_of(vec![("h", Kind::Struct)]),
    )
    .unwrap();
    assert_eq!(
        unit.code,
        vec![
            Instr::Push(Operand::Signed(1)),
            Instr::Push(Operand::NameValue("x".to_string())),
            Instr::Push(Operand::Pooled("s".to_string())),
            Instr::Push(Operand::Unsigned(1)),
            Instr::Arith(Arith::Add, cell("a"), Operand::Signed(2), primary()),
            Instr::Push(primary()),
            by_name("g"),
            Instr::Pop(primary()),
            Instr::Push(primary()),
            by_name("h"),
            Instr::Pop(record()),
            Instr::Push(record()),
            Instr::Function(
                "anonymous".to_string(),
                vec![],
                Repr::Scalar,
                vec![Instr::Var(Repr::Scalar, "temp".to_string()), Instr::Nop],
            ),
            Instr::Push(Operand::Name("anonymous".to_string())),
            by_name("f"),
            Instr::Pop(primary()),
        ]
    );
    assert_eq!(unit.strings, vec!["s".to_string()]);
    assert_eq!(env.lookup(&"anonymous".to_string()), Ok(Kind::Null));
}

#[test]
fn the_kind_of_the_callee_is_read_after_the_arguments() {
    assert_eq!(
        code_of(vec![call_of(
            "later",
            vec![Expr::DecFunc(
                "later".to_string(),
                vec![],
                Box::new(vec![]),
                MType::Null,
            )],
        )]),
        vec![
            Instr::Function(
                "later".to_string(),
                vec![],
                Repr::Scalar,
                vec![Instr::Var(Repr::Scalar, "temp".to_string())],
            ),
            Instr::Push(Operand::Name("later".to_string())),
            by_name("later"),
            Instr::Nop,
        ]
    );
}

#[test]
fn a_callee_has_to_be_a_name() {
    assert_eq!(
        error_of(vec![Expr::CallFunc(
            Box::new(Expr::Number(1)),
            Box::new(vec![]),
        )]),
        CompileError::MalformedCallee
    );
    assert_eq!(
        error_of(vec![member(
            "io",
            Expr::CallFunc(Box::new(Expr::Number(1)), Box::new(vec![])),
        )]),
        CompileError::MalformedCallee
    );
}

#[test]
fn a_plain_property_is_read_by_its_flattened_name() {
    assert_eq!(
        code_of(vec![member("point", ident("x"))]),
        vec![Instr::Mov(cell("point.x"), primary())]
    );
}

#[test]
fn a_property_call_is_a_call_of_the_flattened_name() {
    let (unit, _) = lower_with(
        vec![
            member("io", call_of("println", vec![Expr::String("hi".to_string())])),
            member("string", call_of("ston", vec![ident("s")])),
            member("string", call_of("ntos", vec![Expr::Number(5)])),
            member("obj", call_of("cb", vec![])),
            member("other", call_of("thing", vec![])),
        ],
        env_of(vec![
            ("io.println", Kind::Null),
            ("string.ston", Kind::Number),
            ("string.ntos", Kind::Struct),
            ("obj.cb", Kind::Callback),
        ]),
    )
    .unwrap();
    assert_eq!(
        unit.code,
        vec![
            Instr::Push(Operand::Pooled("hi".to_string())),
            Instr::Push(Operand::Unsigned(2)),
            by_name("io.println"),
            Instr::Nop,
            Instr::Push(Operand::NameValue("s".to_string())),
            by_name("string.ston"),
            Instr::Pop(primary()),
            Instr::Push(Operand::Signed(5)),
            by_name("string.ntos"),
            Instr::Pop(record()),
            Instr::Call(cell("obj.cb")),
            Instr::Nop,
            by_name("other.thing"),
            Instr::Pop(primary()),
        ]
    );
    assert_eq!(unit.strings, vec!["hi".to_string()]);
}

#[test]
fn an_indexed_property_is_loaded_at_a_literal_index() {
    assert_eq!(
        code_of(vec![member(
            "obj",
            Expr::ArrayAccess("items".to_string(), Box::new(Expr::Number(2))),
        )]),
        vec![
            Instr::Arith(Arith::Add, cell("obj.items"), Operand::Signed(2), primary()),
            Instr::Deref(primary(), primary()),
        ]
    );
    assert_eq!(
        error_of(vec![member(
            "obj",
            Expr::ArrayAccess("items".to_string(), Box::new(ident("i"))),
        )]),
        CompileError::UnsupportedConstruct
    );
}

#[test]
fn a_property_access_of_another_shape_is_unsupported() {
    assert_eq!(
        error_of(vec![member("obj", Expr::Number(1))]),
        CompileError::UnsupportedConstruct
    );
    assert_eq!(
        error_of(vec![Expr::PropertyAccess(
            Box::new(Expr::Number(1)),
            Box::new(ident("x")),
        )]),
        CompileError::UnsupportedConstruct
    );
}

#[test]
fn a_struct_result_as_an_operand_is_read_from_the_struct_slot() {
    assert_eq!(
        code_with(
            vec![binop(
                Operator::Equality,
                member("string", call_of("ntos", vec![Expr::Number(5)])),
                member("string", call_of("ntos", vec![Expr::Number(6)])),
            )],
            env_of(vec![("string.ntos", Kind::Struct)]),
        ),
        vec![
            Instr::Push(Operand::Signed(5)),
            by_name("string.ntos"),
            Instr::Pop(record()),
            Instr::Mov(record(), secondary()),
            Instr::Push(Operand::Signed(6)),
            by_name("string.ntos"),
            Instr::Pop(record()),
            Instr::Compare(Relation::Equal, secondary(), record(), primary()),
        ]
    );
}

#[test]
fn a_function_is_compiled_into_a_stream_of_its_own() {
    let (unit, env) = lower_with(
        vec![Expr::DecFunc(
            "greet".to_string(),
            vec![
                Expr::Parameter("n".to_string(), MType::Number),
                Expr::Parameter("s".to_string(), MType::String),
                Expr::Parameter("t".to_string(), MType::Struct),
                Expr::Parameter("f".to_string(), MType::Function),
                Expr::Parameter("u".to_string(), MType::Undefined),
                Expr::Parameter("o".to_string(), MType::Class),
                Expr::Parameter(
                    "g".to_string(),
                    MType::Nested(Box::new(MType::Function), Box::new(MType::String)),
                ),
                Expr::Parameter(
                    "h".to_string(),
                    MType::Nested(Box::new(MType::Function), Box::new(MType::Function)),
                ),
                Expr::Parameter(
                    "k".to_string(),
                    MType::Nested(Box::new(MType::Function), Box::new(MType::Null)),
                ),
            ],
            Box::new(vec![
                Expr::String("inside".to_string()),
                call_of("f", vec![]),
                call_of("g", vec![]),
                call_of("greet", vec![]),
                Expr::Return(Box::new(ident("n"))),
            ]),
            MType::String,
        )],
        SymbolTable::new(),
    )
    .unwrap();
    let param = |name: &str, repr: Repr| Param { name: name.to_string(), repr };
    assert_eq!(
        unit.code,
        vec![Instr::Function(
            "greet".to_string(),
            vec![
                param("n", Repr::Scalar),
                param("s", Repr::Struct),
                param("t", Repr::Struct),
                param("f", Repr::Pointer),
                param("u", Repr::Void),
                param("o", Repr::Scalar),
                param("g", Repr::Struct),
                param("h", Repr::Pointer),
                param("k", Repr::Scalar),
            ],
            Repr::Scalar,
            vec![
                Instr::Var(Repr::Scalar, "temp".to_string()),
                Instr::Push(Operand::Pooled("inside".to_string())),
                Instr::Push(Operand::Unsigned(6)),
                Instr::Call(cell("f")),
                Instr::Nop,
                Instr::Call(cell("g")),
                Instr::Pop(primary()),
                by_name("greet"),
                Instr::Pop(primary()),
                Instr::Mov(cell("n"), primary()),
                Instr::Ret(primary()),
            ],
        )]
    );
    assert_eq!(unit.strings, vec!["inside".to_string()]);
    assert_eq!(env.lookup(&"greet".to_string()), Ok(Kind::String));
    assert_eq!(env.lookup(&"f".to_string()), Ok(Kind::Callback));
    assert_eq!(env.lookup(&"g".to_string()), Ok(Kind::CallbackOf(Payload::String)));
    assert_eq!(env.lookup(&"h".to_string()), Ok(Kind::CallbackOf(Payload::Callback)));
    assert_eq!(env.lookup(&"k".to_string()), Ok(Kind::CallbackOf(Payload::Number)));
    assert_eq!(env.find(&"n".to_string()), None);
    assert_eq!(env.find(&"s".to_string()), None);
}

#[test]
fn a_function_records_the_kind_of_its_declared_result() {
    let cases = vec![
        (MType::Number, Kind::Number),
        (MType::String, Kind::String),
        (MType::Struct, Kind::Struct),
        (MType::Null, Kind::Null),
        (MType::Undefined, Kind::Undefined),
        (MType::Function, Kind::Undefined),
        (MType::Class, Kind::Undefined),
    ];
    for (annotation, kind) in cases {
        let (_, env) = lower_with(
            vec![Expr::DecFunc("f".to_string(), vec![], Box::new(vec![]), annotation)],
            SymbolTable::new(),
        )
        .unwrap();
        assert_eq!(env.lookup(&"f".to_string()), Ok(kind));
    }
}

#[test]
fn a_function_with_a_result_that_cannot_be_recorded_is_unsupported() {
    assert_eq!(
        error_of(vec![Expr::DecFunc(
            "f".to_string(),
            vec![],
            Box::new(vec![]),
            MType::I32,
        )]),
        CompileError::UnsupportedConstruct
    );
    assert_eq!(
        error_of(vec![Expr::DecFunc(
            "f".to_string(),
            vec![Expr::Number(1)],
            Box::new(vec![]),
            MType::Number,
        )]),
        CompileError::UnsupportedConstruct
    );
}

#[test]
fn a_conditional_is_one_scope_with_two_branches() {
    let (unit, _) = lower_with(
        vec![Expr::If(
            Box::new(binop(Operator::Lesser, Expr::Number(1), Expr::Number(2))),
            Box::new(vec![Expr::Return(Box::new(Expr::Number(69)))]),
            Box::new(vec![Expr::Return(Box::new(Expr::Number(0)))]),
        )],
        SymbolTable::new(),
    )
    .unwrap();
    assert_eq!(
        unit.code,
        vec![
            Instr::Compare(
                Relation::Less,
                Operand::Signed(1),
                Operand::Signed(2),
                primary(),
            ),
            Instr::Scope(vec![
                Instr::Jne(primary(), Operand::Signed(1), Operand::Signed(3)),
                Instr::Scope(vec![
                    Instr::Mov(Operand::Signed(69), primary()),
                    Instr::Ret(primary()),
                ]),
                Instr::Jmp(Operand::Signed(4)),
                Instr::Scope(vec![
                    Instr::Mov(Operand::Signed(0), primary()),
                    Instr::Ret(primary()),
                ]),
            ]),
        ]
    );
}

#[test]
fn the_jumps_of_a_conditional_point_at_the_second_branch_and_the_exit() {
    let code = code_of(vec![Expr::If(
        Box::new(ident("c")),
        Box::new(vec![Expr::Pass, Expr::Pass, Expr::Pass]),
        Box::new(vec![]),
    )]);
    let children = match &code[1] {
        Instr::Scope(children) => children,
        other => panic!("not a scope: {:?}", other),
    };
    let second_at = match &children[0] {
        Instr::Jne(_, _, Operand::Signed(target)) => *target as usize,
        other => panic!("not a jump: {:?}", other),
    };
    assert_eq!(children[second_at], Instr::Scope(vec![]));
    assert_eq!(second_at, children.len() - 1);
    let exit_at = match &children[second_at - 1] {
        Instr::Jmp(Operand::Signed(target)) => *target as usize,
        other => panic!("not a jump: {:?}", other),
    };
    assert_eq!(exit_at, children.len());
}

#[test]
fn a_loop_is_one_scope_with_condition_and_body() {
    let code = code_of(vec![Expr::While(
        Box::new(binop(Operator::Lesser, ident("i"), Expr::Number(3))),
        Box::new(vec![binop(
            Operator::Assign,
            ident("i"),
            binop(Operator::Add, ident("i"), Expr::Number(1)),
        )]),
    )]);
    assert_eq!(
        code,
        vec![Instr::Scope(vec![
            Instr::Scope(vec![Instr::Compare(
                Relation::Less,
                cell("i"),
                Operand::Signed(3),
                primary(),
            )]),
            Instr::Jne(primary(), Operand::Signed(1), Operand::Signed(4)),
            Instr::Scope(vec![
                Instr::Arith(Arith::Add, cell("i"), Operand::Signed(1), primary()),
                Instr::Mov(primary(), cell("i")),
            ]),
            Instr::Jmp(Operand::Signed(0)),
        ])]
    );
}

#[test]
fn string_constants_inside_branches_and_loops_join_the_pool() {
    let (unit, _) = lower_with(
        vec![
            Expr::If(
                Box::new(binop(Operator::Equality, ident("s"), Expr::String("c".to_string()))),
                Box::new(vec![Expr::String("yes".to_string())]),
                Box::new(vec![Expr::String("no".to_string())]),
            ),
            Expr::While(
                Box::new(binop(Operator::Equality, ident("s"), Expr::String("w".to_string()))),
                Box::new(vec![
                    Expr::String("again".to_string()),
                    Expr::If(
                        Box::new(ident("c")),
                        Box::new(vec![Expr::String("deep".to_string())]),
                        Box::new(vec![]),
                    ),
                ]),
            ),
            Expr::String("after".to_string()),
        ],
        SymbolTable::new(),
    )
    .unwrap();
    assert_eq!(
        unit.strings,
        vec![
            "c".to_string(),
            "yes".to_string(),
            "no".to_string(),
            "w".to_string(),
            "again".to_string(),
            "deep".to_string(),
            "after".to_string(),
        ]
    );
}

fn named(code: &Vec<Instr>) -> Vec<String> {
    let mut names = Vec::new();
    for instr in code {
        match instr {
            Instr::Push(Operand::Pooled(text)) => names.push(text.clone()),
            Instr::Scope(children) => names.extend(named(children)),
            Instr::Function(_, _, _, body) => names.extend(named(body)),
            _ => {}
        }
    }
    names
}

#[test]
fn the_pool_holds_what_the_code_names_in_the_same_order() {
    let (unit, _) = lower_with(
        vec![
            Expr::DecFunc(
                "f".to_string(),
                vec![],
                Box::new(vec![Expr::While(
                    Box::new(ident("c")),
                    Box::new(vec![call_of("g", vec![Expr::String("in".to_string())])]),
                )]),
                MType::Null,
            ),
            binop(Operator::Declare(MType::String), ident("t"), Expr::String("v".to_string())),
            Expr::If(
                Box::new(ident("c")),
                Box::new(vec![]),
                Box::new(vec![Expr::Array(Box::new(vec![Expr::String("no".to_string())]))]),
            ),
            Expr::String("v".to_string()),
        ],
        SymbolTable::new(),
    )
    .unwrap();
    assert_eq!(
        unit.strings,
        vec!["in".to_string(), "v".to_string(), "no".to_string(), "v".to_string()]
    );
    assert_eq!(named(&unit.code), unit.strings);
}

#[test]
fn names_declared_inside_blocks_stay_recorded() {
    let (_, env) = lower_with(
        vec![Expr::If(
            Box::new(ident("c")),
            Box::new(vec![binop(
                Operator::Declare(MType::String),
                ident("inner"),
                ident("other"),
            )]),
            Box::new(vec![Expr::While(
                Box::new(ident("c")),
                Box::new(vec![Expr::DecFunc(
                    "deep".to_string(),
                    vec![],
                    Box::new(vec![]),
                    MType::Null,
                )]),
            )]),
        )],
        SymbolTable::new(),
    )
    .unwrap();
    assert_eq!(env.lookup(&"inner".to_string()), Ok(Kind::String));
    assert_eq!(env.lookup(&"deep".to_string()), Ok(Kind::Null));
}

#[test]
fn return_pass_and_module_inclusion_are_single_instructions() {
    assert_eq!(
        code_of(vec![
            Expr::Import("io.rbb".to_string()),
            Expr::Include("fs.rbb".to_string()),
            Expr::Pass,
            Expr::Return(Box::new(ident("x"))),
        ]),
        vec![
            Instr::Import("io.rbb".to_string()),
            Instr::Import("fs.rbb".to_string()),
            Instr::Nop,
            Instr::Mov(cell("x"), primary()),
            Instr::Ret(primary()),
        ]
    );
}

#[test]
fn nodes_without_a_lowering_rule_are_unsupported() {
    let nodes = vec![
        Expr::For("i".to_string(), Box::new(ident("list")), Box::new(vec![])),
        Expr::Parameter("p".to_string(), MType::Number),
        Expr::DecClass("C".to_string(), Box::new(vec![])),
        Expr::InstantiateClass("C".to_string(), Box::new(vec![])),
        Expr::EOF,
    ];
    for node in nodes {
        assert_eq!(error_of(vec![node]), CompileError::UnsupportedConstruct);
    }
}

#[test]
fn a_failure_anywhere_abandons_the_unit() {
    let result = lower_with(
        vec![
            Expr::Number(1),
            Expr::If(
                Box::new(ident("c")),
                Box::new(vec![Expr::EOF]),
                Box::new(vec![]),
            ),
            Expr::Number(2),
        ],
        SymbolTable::new(),
    );
    assert!(matches!(result, Err(CompileError::UnsupportedConstruct)));
}

#[test]
fn lowering_appends_to_what_the_caller_has_seeded() {
    let mut unit = Unit::new();
    unit.emit(Instr::Var(Repr::Scalar, Slot::Primary.name()));
    unit.pool("seeded".to_string());
    let mut env = SymbolTable::new();
    env.declare("io.print".to_string(), Kind::Null).unwrap();
    let (unit, env) = eval(
        vec![Expr::String("mine".to_string()), Expr::Number(1)],
        unit,
        env,
    )
    .unwrap();
    assert_eq!(
        unit.code,
        vec![
            Instr::Var(Repr::Scalar, "temp".to_string()),
            Instr::Push(Operand::Pooled("mine".to_string())),
            Instr::Push(Operand::Unsigned(4)),
            Instr::Mov(Operand::Signed(1), primary()),
        ]
    );
    assert_eq!(unit.strings, vec!["seeded".to_string(), "mine".to_string()]);
    assert_eq!(env.lookup(&"io.print".to_string()), Ok(Kind::Null));
}

#[test]
fn a_unit_adopts_the_strings_of_another_pool() {
    let mut unit = Unit::new();
    unit.pool("a".to_string());
    unit.adopt(vec!["b".to_string(), "c".to_string()]);
    assert_eq!(
        unit.strings,
        vec!["a".to_string(), "b".to_string(), "c".to_string()]
    );
    assert_eq!(unit.code, vec![]);
}

#[test]
fn copies_of_instructions_are_equal_to_their_originals() {
    let code = vec![
        Instr::Function(
            "f".to_string(),
            vec![Param { name: "p".to_string(), repr: Repr::Pointer }],
            Repr::Scalar,
            vec![
                Instr::Var(Repr::Scalar, "temp".to_string()),
                Instr::Scope(vec![
                    Instr::Jeq(primary(), Operand::Unsigned(1), Operand::Signed(2)),
                    Instr::Push(Operand::Pooled("s".to_string())),
                    Instr::Call(Operand::Name("g".to_string())),
                ]),
                Instr::Ret(Operand::NameValue("x".to_string())),
            ],
        ),
        Instr::Import("io.rbb".to_string()),
        Instr::Nop,
    ];
    assert_eq!(code.clone(), code);
    assert_eq!(myst::code::duplicate_code(&code), code);
    assert_eq!(code[0].duplicate(), code[0]);
}
