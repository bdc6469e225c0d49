//! The vocabulary shared by the tokenizer, the parser and the lowering engine:
//! type annotations, operators, tokens and syntax tree nodes, each with the
//! mathematical model that the contracts of the other modules speak of.

use vstd::prelude::*;
use crate::text::{decimal, decimal_string};

verus! {

/// A type annotation as written in source.
#[derive(Debug, PartialEq, Eq)]
pub enum MType {
    Number,
    I64,
    I32,
    I16,
    I8,
    U64,
    U32,
    U16,
    U8,
    F64,
    F32,
    F16,
    String,
    Function,
    Class,
    Struct,
    Null,
    Undefined,
    Nested(Box<MType>, Box<MType>),
}

impl MType {
    /// Whether the annotation has a printed name.
    pub open spec fn has_name(&self) -> bool {
        match self {
            MType::Number
            | MType::String
            | MType::Function
            | MType::Class
            | MType::Struct
            | MType::Null
            | MType::Undefined => true,
            _ => false,
        }
    }

    /// The printed name of an annotation that has one.
    pub open spec fn name(&self) -> Seq<char> {
        match self {
            MType::Number => "number"@,
            MType::String => "string"@,
            MType::Function => "function"@,
            MType::Class => "class"@,
            MType::Struct => "struct"@,
            MType::Null => "null"@,
            _ => "undefined"@,
        }
    }

    /// Whether the annotation has a printed name.
    pub fn can_stringify(&self) -> (answer: bool)
        ensures
            answer == self.has_name(),
    {
        match self {
            MType::Number => true,
            MType::String => true,
            MType::Function => true,
            MType::Class => true,
            MType::Struct => true,
            MType::Null => true,
            MType::Undefined => true,
            _ => false,
        }
    }

    /// The printed name of the annotation. The sized numeric annotations and
    /// the nested ones have none.
    pub fn stringify(&self) -> (text: String)
        requires
            self.has_name(),
        ensures
            text@ == self.name(),
    {
        match self {
            MType::Number => String::from_str("number"),
            MType::String => String::from_str("string"),
            MType::Function => String::from_str("function"),
            MType::Class => String::from_str("class"),
            MType::Struct => String::from_str("struct"),
            MType::Null => String::from_str("null"),
            _ => String::from_str("undefined"),
        }
    }

    /// A copy of the annotation.
    pub fn duplicate(&self) -> (copy: MType)
        ensures
            copy == *self,
        decreases self,
    {
        match self {
            MType::Number => MType::Number,
            MType::I64 => MType::I64,
            MType::I32 => MType::I32,
            MType::I16 => MType::I16,
            MType::I8 => MType::I8,
            MType::U64 => MType::U64,
            MType::U32 => MType::U32,
            MType::U16 => MType::U16,
            MType::U8 => MType::U8,
            MType::F64 => MType::F64,
            MType::F32 => MType::F32,
            MType::F16 => MType::F16,
            MType::String => MType::String,
            MType::Function => MType::Function,
            MType::Class => MType::Class,
            MType::Struct => MType::Struct,
            MType::Null => MType::Null,
            MType::Undefined => MType::Undefined,
            MType::Nested(role, payload) => MType::Nested(
                Box::new(role.duplicate()),
                Box::new(payload.duplicate()),
            ),
        }
    }
}

impl Clone for MType {
    fn clone(&self) -> (copy: MType)
        ensures
            copy == *self,
    {
        self.duplicate()
    }
}

/// A binary operator. A declaration carries the annotation of the declared
/// name, `Undefined` where the kind is to be inferred from the value.
#[derive(Debug, PartialEq, Eq)]
pub enum Operator {
    Add,
    Subtract,
    Multiply,
    Divide,
    Equality,
    Lesser,
    Greater,
    LesserEqual,
    GreaterEqual,
    NotEqual,
    Declare(MType),
    Assign,
}

impl Operator {
    /// A copy of the operator.
    pub fn duplicate(&self) -> (copy: Operator)
        ensures
            copy == *self,
    {
        match self {
            Operator::Add => Operator::Add,
            Operator::Subtract => Operator::Subtract,
            Operator::Multiply => Operator::Multiply,
            Operator::Divide => Operator::Divide,
            Operator::Equality => Operator::Equality,
            Operator::Lesser => Operator::Lesser,
            Operator::Greater => Operator::Greater,
            Operator::LesserEqual => Operator::LesserEqual,
            Operator::GreaterEqual => Operator::GreaterEqual,
            Operator::NotEqual => Operator::NotEqual,
            Operator::Declare(annotation) => Operator::Declare(annotation.duplicate()),
            Operator::Assign => Operator::Assign,
        }
    }
}

impl Clone for Operator {
    fn clone(&self) -> (copy: Operator)
        ensures
            copy == *self,
    {
        self.duplicate()
    }
}

/// A lexical token.
#[derive(Debug, PartialEq, Eq)]
pub enum Token {
    LParen,
    RParen,
    LCurly,
    RCurly,
    LBracket,
    RBracket,
    LArrow,
    RArrow,
    Plus,
    Minus,
    Star,
    Slash,
    Semicolon,
    Comma,
    Dot,
    Colon,
    Equal,
    Equality,
    Not,
    String(String),
    Number(i64),
    Identifier(String),
    Let,
    If,
    Else,
    While,
    For,
    Of,
    Func,
    Import,
    Include,
    Class,
    Return,
    Pass,
    NewLine,
    EOF,
}

/// The model of a token: the same shape, with texts as character sequences.
pub enum TokenView {
    LParen,
    RParen,
    LCurly,
    RCurly,
    LBracket,
    RBracket,
    LArrow,
    RArrow,
    Plus,
    Minus,
    Star,
    Slash,
    Semicolon,
    Comma,
    Dot,
    Colon,
    Equal,
    Equality,
    Not,
    String(Seq<char>),
    Number(i64),
    Identifier(Seq<char>),
    Let,
    If,
    Else,
    While,
    For,
    Of,
    Func,
    Import,
    Include,
    Class,
    Return,
    Pass,
    NewLine,
    EOF,
}

impl View for Token {
    type V = TokenView;

    open spec fn view(&self) -> TokenView {
        match self {
            Token::LParen => TokenView::LParen,
            Token::RParen => TokenView::RParen,
            Token::LCurly => TokenView::LCurly,
            Token::RCurly => TokenView::RCurly,
            Token::LBracket => TokenView::LBracket,
            Token::RBracket => TokenView::RBracket,
            Token::LArrow => TokenView::LArrow,
            Token::RArrow => TokenView::RArrow,
            Token::Plus => TokenView::Plus,
            Token::Minus => TokenView::Minus,
            Token::Star => TokenView::Star,
            Token::Slash => TokenView::Slash,
            Token::Semicolon => TokenView::Semicolon,
            Token::Comma => TokenView::Comma,
            Token::Dot => TokenView::Dot,
            Token::Colon => TokenView::Colon,
            Token::Equal => TokenView::Equal,
            Token::Equality => TokenView::Equality,
            Token::Not => TokenView::Not,
            Token::String(text) => TokenView::String(text@),
            Token::Number(value) => TokenView::Number(*value),
            Token::Identifier(name) => TokenView::Identifier(name@),
            Token::Let => TokenView::Let,
            Token::If => TokenView::If,
            Token::Else => TokenView::Else,
            Token::While => TokenView::While,
            Token::For => TokenView::For,
            Token::Of => TokenView::Of,
            Token::Func => TokenView::Func,
            Token::Import => TokenView::Import,
            Token::Include => TokenView::Include,
            Token::Class => TokenView::Class,
            Token::Return => TokenView::Return,
            Token::Pass => TokenView::Pass,
            Token::NewLine => TokenView::NewLine,
            Token::EOF => TokenView::EOF,
        }
    }
}

/// The models of a run of tokens, one for one.
pub open spec fn token_views(tokens: Seq<Token>) -> Seq<TokenView> {
    Seq::new(tokens.len(), |i: int| tokens[i]@)
}

impl TokenView {
    /// Whether the token has a source text: the punctuation, the literals and
    /// the identifiers have one, the keywords and the markers have none.
    pub open spec fn has_text(self) -> bool {
        match self {
            TokenView::LParen
            | TokenView::RParen
            | TokenView::LCurly
            | TokenView::RCurly
            | TokenView::LBracket
            | TokenView::RBracket
            | TokenView::LArrow
            | TokenView::RArrow
            | TokenView::Plus
            | TokenView::Minus
            | TokenView::Star
            | TokenView::Slash
            | TokenView::Semicolon
            | TokenView::Comma
            | TokenView::Dot
            | TokenView::Colon
            | TokenView::Equal
            | TokenView::Equality
            | TokenView::String(_)
            | TokenView::Number(_)
            | TokenView::Identifier(_) => true,
            _ => false,
        }
    }

    /// The source text of a token that has one.
    pub open spec fn text(self) -> Seq<char> {
        match self {
            TokenView::LParen => "("@,
            TokenView::RParen => ")"@,
            TokenView::LCurly => "{"@,
            TokenView::RCurly => "}"@,
            TokenView::LBracket => "["@,
            TokenView::RBracket => "]"@,
            TokenView::LArrow => "<"@,
            TokenView::RArrow => ">"@,
            TokenView::Plus => "+"@,
            TokenView::Minus => "-"@,
            TokenView::Star => "*"@,
            TokenView::Slash => "/"@,
            TokenView::Semicolon => ";"@,
            TokenView::Comma => ","@,
            TokenView::Dot => "."@,
            TokenView::Colon => ":"@,
            TokenView::Equal => "="@,
            TokenView::Equality => "=="@,
            TokenView::String(text) => text,
            TokenView::Number(value) => decimal(value as int),
            TokenView::Identifier(name) => name,
            _ => Seq::empty(),
        }
    }
}

impl Token {
    /// Whether the token has a source text.
    pub fn can_stringify(&self) -> (answer: bool)
        ensures
            answer == self@.has_text(),
    {
        match self {
            Token::Not => false,
            Token::Let => false,
            Token::If => false,
            Token::Else => false,
            Token::While => false,
            Token::For => false,
            Token::Of => false,
            Token::Func => false,
            Token::Import => false,
            Token::Include => false,
            Token::Class => false,
            Token::Return => false,
            Token::Pass => false,
            Token::NewLine => false,
            Token::EOF => false,
            _ => true,
        }
    }

    /// The source text of the token: its spelling for punctuation, its
    /// content for a string or an identifier, its decimal form for a number.
    pub fn stringify(&self) -> (text: String)
        requires
            self@.has_text(),
        ensures
            text@ == self@.text(),
    {
        match self {
            Token::LParen => String::from_str("("),
            Token::RParen => String::from_str(")"),
            Token::LCurly => String::from_str("{"),
            Token::RCurly => String::from_str("}"),
            Token::LBracket => String::from_str("["),
            Token::RBracket => String::from_str("]"),
            Token::LArrow => String::from_str("<"),
            Token::RArrow => String::from_str(">"),
            Token::Plus => String::from_str("+"),
            Token::Minus => String::from_str("-"),
            Token::Star => String::from_str("*"),
            Token::Slash => String::from_str("/"),
            Token::Semicolon => String::from_str(";"),
            Token::Comma => String::from_str(","),
            Token::Dot => String::from_str("."),
            Token::Colon => String::from_str(":"),
            Token::Equal => String::from_str("="),
            Token::Equality => String::from_str("=="),
            Token::String(text) => text.clone(),
            Token::Number(value) => decimal_string(*value),
            Token::Identifier(name) => name.clone(),
            _ => String::new(),
        }
    }

    /// A copy of the token.
    pub fn duplicate(&self) -> (copy: Token)
        ensures
            copy@ == self@,
    {
        match self {
            Token::LParen => Token::LParen,
            Token::RParen => Token::RParen,
            Token::LCurly => Token::LCurly,
            Token::RCurly => Token::RCurly,
            Token::LBracket => Token::LBracket,
            Token::RBracket => Token::RBracket,
            Token::LArrow => Token::LArrow,
            Token::RArrow => Token::RArrow,
            Token::Plus => Token::Plus,
            Token::Minus => Token::Minus,
            Token::Star => Token::Star,
            Token::Slash => Token::Slash,
            Token::Semicolon => Token::Semicolon,
            Token::Comma => Token::Comma,
            Token::Dot => Token::Dot,
            Token::Colon => Token::Colon,
            Token::Equal => Token::Equal,
            Token::Equality => Token::Equality,
            Token::Not => Token::Not,
            Token::String(text) => Token::String(text.clone()),
            Token::Number(value) => Token::Number(*value),
            Token::Identifier(name) => Token::Identifier(name.clone()),
            Token::Let => Token::Let,
            Token::If => Token::If,
            Token::Else => Token::Else,
            Token::While => Token::While,
            Token::For => Token::For,
            Token::Of => Token::Of,
            Token::Func => Token::Func,
            Token::Import => Token::Import,
            Token::Include => Token::Include,
            Token::Class => Token::Class,
            Token::Return => Token::Return,
            Token::Pass => Token::Pass,
            Token::NewLine => Token::NewLine,
            Token::EOF => Token::EOF,
        }
    }
}

impl Clone for Token {
    fn clone(&self) -> (copy: Token)
        ensures
            copy@ == self@,
    {
        self.duplicate()
    }
}

/// A node of the syntax tree.
#[derive(Debug, PartialEq, Eq)]
pub enum Expr {
    BinOp(Operator, Box<Expr>, Box<Expr>),
    Number(i64),
    String(String),
    Array(Box<Vec<Expr>>),
    Identifier(String),
    ArrayAccess(String, Box<Expr>),
    PropertyAccess(Box<Expr>, Box<Expr>),
    If(Box<Expr>, Box<Vec<Expr>>, Box<Vec<Expr>>),
    While(Box<Expr>, Box<Vec<Expr>>),
    For(String, Box<Expr>, Box<Vec<Expr>>),
    Parameter(String, MType),
    DecFunc(String, Vec<Expr>, Box<Vec<Expr>>, MType),
    CallFunc(Box<Expr>, Box<Vec<Expr>>),
    DecClass(String, Box<Vec<Expr>>),
    InstantiateClass(String, Box<Vec<Expr>>),
    Import(String),
    Include(String),
    Return(Box<Expr>),
    Pass,
    EOF,
}

/// The model of a syntax tree node: the same shape, with texts as character
/// sequences and node lists as sequences.
pub enum ExprView {
    BinOp(Operator, Box<ExprView>, Box<ExprView>),
    Number(i64),
    String(Seq<char>),
    Array(Seq<ExprView>),
    Identifier(Seq<char>),
    ArrayAccess(Seq<char>, Box<ExprView>),
    PropertyAccess(Box<ExprView>, Box<ExprView>),
    If(Box<ExprView>, Seq<ExprView>, Seq<ExprView>),
    While(Box<ExprView>, Seq<ExprView>),
    For(Seq<char>, Box<ExprView>, Seq<ExprView>),
    Parameter(Seq<char>, MType),
    DecFunc(Seq<char>, Seq<ExprView>, Seq<ExprView>, MType),
    CallFunc(Box<ExprView>, Seq<ExprView>),
    DecClass(Seq<char>, Seq<ExprView>),
    InstantiateClass(Seq<char>, Seq<ExprView>),
    Import(Seq<char>),
    Include(Seq<char>),
    Return(Box<ExprView>),
    Pass,
    EOF,
}

/// The models of a list of nodes, one for one.
pub open spec fn expr_views(items: Seq<Expr>) -> Seq<ExprView>
    decreases items,
{
    Seq::new(
        items.len(),
        |i: int|
            if 0 <= i < items.len() {
                items[i].model()
            } else {
                ExprView::Pass
            },
    )
}

/// The model of a list of nodes has the list's length, and holds at each
/// place the model of the node at that place.
pub proof fn lemma_expr_views(items: Seq<Expr>)
    ensures
        expr_views(items).len() == items.len(),
        forall|i: int| 0 <= i < items.len() ==> #[trigger] expr_views(items)[i] == items[i]@,
{
}

/// The model of a list with one more node is the model of the list with the
/// model of the node.
pub proof fn lemma_expr_views_push(items: Seq<Expr>, item: Expr)
    ensures
        expr_views(items.push(item)) == expr_views(items).push(item@),
{
    assert(expr_views(items.push(item)) =~= expr_views(items).push(item@));
}

impl Expr {
    /// The model of the node.
    pub open spec fn model(&self) -> ExprView
        decreases self,
    {
        match self {
            Expr::BinOp(operator, left, right) => ExprView::BinOp(
                *operator,
                Box::new(left.model()),
                Box::new(right.model()),
            ),
            Expr::Number(value) => ExprView::Number(*value),
            Expr::String(text) => ExprView::String(text@),
            Expr::Array(items) => ExprView::Array(expr_views(items@)),
            Expr::Identifier(name) => ExprView::Identifier(name@),
            Expr::ArrayAccess(name, index) => ExprView::ArrayAccess(
                name@,
                Box::new(index.model()),
            ),
            Expr::PropertyAccess(object, member) => ExprView::PropertyAccess(
                Box::new(object.model()),
                Box::new(member.model()),
            ),
            Expr::If(condition, body, otherwise) => ExprView::If(
                Box::new(condition.model()),
                expr_views(body@),
                expr_views(otherwise@),
            ),
            Expr::While(condition, body) => ExprView::While(
                Box::new(condition.model()),
                expr_views(body@),
            ),
            Expr::For(name, iterable, body) => ExprView::For(
                name@,
                Box::new(iterable.model()),
                expr_views(body@),
            ),
            Expr::Parameter(name, annotation) => ExprView::Parameter(name@, *annotation),
            Expr::DecFunc(name, params, body, annotation) => ExprView::DecFunc(
                name@,
                expr_views(params@),
                expr_views(body@),
                *annotation,
            ),
            Expr::CallFunc(callee, args) => ExprView::CallFunc(
                Box::new(callee.model()),
                expr_views(args@),
            ),
            Expr::DecClass(name, body) => ExprView::DecClass(name@, expr_views(body@)),
            Expr::InstantiateClass(name, args) => ExprView::InstantiateClass(
                name@,
                expr_views(args@),
            ),
            Expr::Import(name) => ExprView::Import(name@),
            Expr::Include(name) => ExprView::Include(name@),
            Expr::Return(value) => ExprView::Return(Box::new(value.model())),
            Expr::Pass => ExprView::Pass,
            Expr::EOF => ExprView::EOF,
        }
    }

    /// A copy of the node and of everything below it.
    pub fn duplicate(&self) -> (copy: Expr)
        ensures
            copy@ == self@,
        decreases self,
    {
        match self {
            Expr::BinOp(operator, left, right) => Expr::BinOp(
                operator.duplicate(),
                Box::new(left.duplicate()),
                Box::new(right.duplicate()),
            ),
            Expr::Number(value) => Expr::Number(*value),
            Expr::String(text) => Expr::String(text.clone()),
            Expr::Array(items) => Expr::Array(Box::new(duplicate_all(items))),
            Expr::Identifier(name) => Expr::Identifier(name.clone()),
            Expr::ArrayAccess(name, index) => Expr::ArrayAccess(
                name.clone(),
                Box::new(index.duplicate()),
            ),
            Expr::PropertyAccess(object, member) => Expr::PropertyAccess(
                Box::new(object.duplicate()),
                Box::new(member.duplicate()),
            ),
            Expr::If(condition, body, otherwise) => Expr::If(
                Box::new(condition.duplicate()),
                Box::new(duplicate_all(body)),
                Box::new(duplicate_all(otherwise)),
            ),
            Expr::While(condition, body) => Expr::While(
                Box::new(condition.duplicate()),
                Box::new(duplicate_all(body)),
            ),
            Expr::For(name, iterable, body) => Expr::For(
                name.clone(),
                Box::new(iterable.duplicate()),
                Box::new(duplicate_all(body)),
            ),
            Expr::Parameter(name, annotation) => Expr::Parameter(
                name.clone(),
                annotation.duplicate(),
            ),
            Expr::DecFunc(name, params, body, annotation) => Expr::DecFunc(
                name.clone(),
                duplicate_all(params),
                Box::new(duplicate_all(body)),
                annotation.duplicate(),
            ),
            Expr::CallFunc(callee, args) => Expr::CallFunc(
                Box::new(callee.duplicate()),
                Box::new(duplicate_all(args)),
            ),
            Expr::DecClass(name, body) => Expr::DecClass(
                name.clone(),
                Box::new(duplicate_all(body)),
            ),
            Expr::InstantiateClass(name, args) => Expr::InstantiateClass(
                name.clone(),
                Box::new(duplicate_all(args)),
            ),
            Expr::Import(name) => Expr::Import(name.clone()),
            Expr::Include(name) => Expr::Include(name.clone()),
            Expr::Return(value) => Expr::Return(Box::new(value.duplicate())),
            Expr::Pass => Expr::Pass,
            Expr::EOF => Expr::EOF,
        }
    }
}

impl View for Expr {
    type V = ExprView;

    open spec fn view(&self) -> ExprView {
        self.model()
    }
}

impl Clone for Expr {
    fn clone(&self) -> (copy: Expr)
        ensures
            copy@ == self@,
    {
        self.duplicate()
    }
}

/// A copy of a list of nodes.
pub fn duplicate_all(items: &Vec<Expr>) -> (copies: Vec<Expr>)
    ensures
        expr_views(copies@) == expr_views(items@),
    decreases items,
{
    let mut copies: Vec<Expr> = Vec::new();
    let mut i: usize = 0;
    while i < items.len()
        invariant
            i <= items.len(),
            copies.len() == i,
            forall|j: int| 0 <= j < i ==> copies@[j]@ == items@[j]@,
        decreases items.len() - i,
    {
        copies.push(items[i].duplicate());
        i += 1;
    }
    assert(expr_views(copies@) =~= expr_views(items@));
    copies
}

} // verus!
