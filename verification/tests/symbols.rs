use myst::symbols::{CompileError, Kind, Payload, SymbolTable};

fn name(text: &str) -> String {
    text.to_string()
}

#[test]
fn an_empty_table_knows_no_name() {
    let table = SymbolTable::new();
    assert_eq!(table.find(&name("x")), None);
    assert_eq!(table.lookup(&name("x")), Err(CompileError::UnresolvedSymbol));
}

#[test]
fn a_declared_name_is_found() {
    let mut table = SymbolTable::new();
    assert_eq!(table.declare(name("io.println"), Kind::Null), Ok(()));
    assert_eq!(table.declare(name("string.new"), Kind::Struct), Ok(()));
    assert_eq!(table.lookup(&name("io.println")), Ok(Kind::Null));
    assert_eq!(table.lookup(&name("string.new")), Ok(Kind::Struct));
    assert_eq!(table.find(&name("string.new")), Some(Kind::Struct));
    assert_eq!(table.lookup(&name("io")), Err(CompileError::UnresolvedSymbol));
}

#[test]
fn a_second_declaration_is_refused_and_changes_nothing() {
    let mut table = SymbolTable::new();
    assert_eq!(table.declare(name("f"), Kind::Number), Ok(()));
    assert_eq!(
        table.declare(name("f"), Kind::String),
        Err(CompileError::DuplicateDeclaration)
    );
    assert_eq!(table.lookup(&name("f")), Ok(Kind::Number));
}

#[test]
fn a_record_replaces_what_was_recorded() {
    let mut table = SymbolTable::new();
    table.record(name("f"), Kind::Number);
    table.record(name("g"), Kind::Null);
    table.record(name("f"), Kind::CallbackOf(Payload::String));
    assert_eq!(table.lookup(&name("f")), Ok(Kind::CallbackOf(Payload::String)));
    assert_eq!(table.lookup(&name("g")), Ok(Kind::Null));
}

#[test]
fn callbacks_hold_pointers() {
    assert!(Kind::Callback.holds_pointer());
    assert!(Kind::CallbackOf(Payload::Number).holds_pointer());
    assert!(Kind::CallbackOf(Payload::Callback).holds_pointer());
    assert!(!Kind::Number.holds_pointer());
    assert!(!Kind::String.holds_pointer());
    assert!(!Kind::Struct.holds_pointer());
    assert!(!Kind::Null.holds_pointer());
    assert!(!Kind::Undefined.holds_pointer());
}
