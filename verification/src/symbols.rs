//! The symbol environment: the coarse kind recorded for each name, which
//! drives how calls are dispatched and where their results are found.

use vstd::prelude::*;

verus! {

/// Why a compilation unit was abandoned.
#[derive(Clone, Copy, Debug, PartialEq, Eq, Structural)]
pub enum CompileError {
    /// A name has no recorded kind where one is needed.
    UnresolvedSymbol,
    /// A name was declared that is recorded already.
    DuplicateDeclaration,
    /// The left side of an assignment is not a plain identifier.
    InvalidAssignmentTarget,
    /// The left side of a declaration is not a plain identifier.
    InvalidDeclarationTarget,
    /// A node stands where no lowering rule takes it.
    UnsupportedConstruct,
    /// The callee of a call does not reduce to a name.
    MalformedCallee,
}

/// What a callback that was declared with a payload hands back.
#[derive(Clone, Copy, Debug, PartialEq, Eq, Structural)]
pub enum Payload {
    Number,
    String,
    Struct,
    Callback,
}

/// The coarse kind of a name.
#[derive(Clone, Copy, Debug, PartialEq, Eq, Structural)]
pub enum Kind {
    Number,
    String,
    Struct,
    /// A function pointer of which no more is known.
    Callback,
    /// A function pointer declared together with what it hands back.
    CallbackOf(Payload),
    Null,
    Undefined,
}

impl Kind {
    /// Whether a name of this kind holds a function pointer, so that a call
    /// through it is indirect.
    pub open spec fn is_callback(self) -> bool {
        self is Callback || self is CallbackOf
    }

    /// Whether a name of this kind holds a function pointer.
    pub fn holds_pointer(self) -> (answer: bool)
        ensures
            answer == self.is_callback(),
    {
        match self {
            Kind::Callback => true,
            Kind::CallbackOf(_) => true,
            _ => false,
        }
    }
}

/// One recorded name.
struct Symbol {
    name: String,
    kind: Kind,
}

/// The mapping that a run of records stands for: a later record of a name
/// replaces an earlier one.
spec fn mapping(records: Seq<Symbol>) -> Map<Seq<char>, Kind>
    decreases records.len(),
{
    if records.len() == 0 {
        Map::empty()
    } else {
        mapping(records.drop_last()).insert(records.last().name@, records.last().kind)
    }
}

/// The symbol environment of one compilation: a flat namespace from names
/// (plain, or `object.member`) to kinds. Nothing is ever removed from it.
pub struct SymbolTable {
    records: Vec<Symbol>,
}

impl View for SymbolTable {
    type V = Map<Seq<char>, Kind>;

    closed spec fn view(&self) -> Map<Seq<char>, Kind> {
        mapping(self.records@)
    }
}

impl SymbolTable {
    /// The empty environment.
    pub fn new() -> (table: SymbolTable)
        ensures
            table@ == Map::<Seq<char>, Kind>::empty(),
    {
        SymbolTable { records: Vec::new() }
    }

    /// The kind recorded for `name`, if any.
    pub fn find(&self, name: &String) -> (found: Option<Kind>)
        ensures
            found == if self@.contains_key(name@) {
                Some(self@[name@])
            } else {
                None::<Kind>
            },
    {
        let mut i: usize = self.records.len();
        assert(self.records@.take(i as int) == self.records@);
        while i > 0
            invariant
                i <= self.records.len(),
                self@.contains_key(name@) <==> mapping(
                    self.records@.take(i as int),
                ).contains_key(name@),
                self@.contains_key(name@) ==> self@[name@] == mapping(
                    self.records@.take(i as int),
                )[name@],
            decreases i,
        {
            let ghost upto = self.records@.take(i as int);
            assert(upto.drop_last() == self.records@.take(i - 1));
            assert(upto.last() == self.records@[i - 1]);
            i -= 1;
            if self.records[i].name == *name {
                return Some(self.records[i].kind);
            }
        }
        assert(self.records@.take(0).len() == 0);
        None
    }

    /// The kind recorded for `name`; `UnresolvedSymbol` where there is none.
    pub fn lookup(&self, name: &String) -> (found: Result<Kind, CompileError>)
        ensures
            found == if self@.contains_key(name@) {
                Ok::<Kind, CompileError>(self@[name@])
            } else {
                Err::<Kind, CompileError>(CompileError::UnresolvedSymbol)
            },
    {
        match self.find(name) {
            Some(kind) => Ok(kind),
            None => Err(CompileError::UnresolvedSymbol),
        }
    }

    /// Records `kind` for `name`, replacing what was recorded for it.
    pub fn record(&mut self, name: String, kind: Kind)
        ensures
            final(self)@ == old(self)@.insert(name@, kind),
    {
        let ghost before = self.records@;
        let symbol = Symbol { name, kind };
        self.records.push(symbol);
        assert(self.records@.drop_last() == before);
    }

    /// Records `kind` for a name that has none yet; `DuplicateDeclaration`,
    /// and no change, where it has one.
    pub fn declare(&mut self, name: String, kind: Kind) -> (done: Result<(), CompileError>)
        ensures
            old(self)@.contains_key(name@) ==> done == Err::<(), CompileError>(
                CompileError::DuplicateDeclaration,
            ) && final(self)@ == old(self)@,
            !old(self)@.contains_key(name@) ==> done == Ok::<(), CompileError>(()) && final(self)@
                == old(self)@.insert(name@, kind),
    {
        match self.find(&name) {
            Some(_) => Err(CompileError::DuplicateDeclaration),
            None => {
                self.record(name, kind);
                Ok(())
            },
        }
    }
}

} // verus!
