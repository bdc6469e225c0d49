//! The parser: recursive descent over a run of tokens.

use vstd::prelude::*;
use crate::code::texts;
use crate::enums::{
    duplicate_all, expr_views, lemma_expr_views, lemma_expr_views_push, token_views, Expr,
    ExprView, MType, Operator, Token, TokenView,
};
use crate::grammar::{
    annotation, array, array_access, array_items, assignment, back, binary, block, block_items,
    budget, call, call_args, class, compared, comparison, conditional, declaration,
    declared_value, expression, for_loop, function, function_of, identifier, import, number,
    operations, otherwise, parameters, params, peek, primary, program, property_access,
    return_value, shorthand, skip_semicolon, statement, step, string, type_named, while_loop,
    ParseError, ParseState, Parsed,
};
use crate::budget::law_enough_budget;
use crate::progress::{
    moves_array, moves_array_access, moves_array_items, moves_assignment, moves_block, moves_call,
    moves_call_args, moves_class, moves_compared, moves_comparison, moves_conditional,
    moves_declaration, moves_declared_value, moves_expression, moves_for_loop, moves_function,
    moves_function_of, moves_identifier, moves_operations, moves_otherwise, moves_params,
    moves_primary, moves_property_access, moves_return_value, moves_shorthand, moves_statement,
    moves_while_loop, placed,
};
use crate::text::spells;

verus! {

/// A parser over a run of tokens.
pub struct Parser {
    tokens: Vec<Token>,
    expressions: Vec<Expr>,
    /// The position counts the steps past the end of the tokens too, so it
    /// is kept in more bits than an index has.
    current: u128,
    budget: u64,
}

/// The annotation that a type name stands for.
fn type_of(name: &String) -> (found: Option<MType>)
    ensures
        found == type_named(name@),
{
    if spells(name, "Number") {
        Some(MType::Number)
    } else if spells(name, "String") {
        Some(MType::String)
    } else if spells(name, "Function") {
        Some(MType::Function)
    } else if spells(name, "Class") {
        Some(MType::Class)
    } else if spells(name, "Struct") {
        Some(MType::Struct)
    } else if spells(name, "Unknown") {
        Some(MType::Undefined)
    } else {
        None
    }
}

/// A binary operation.
fn binary_of(operator: Operator, left: Expr, right: Expr) -> (node: Expr)
    ensures
        node@ == binary(operator, left@, right@),
{
    Expr::BinOp(operator, Box::new(left), Box::new(right))
}

/// The parameters of a declaration as nodes.
fn parameters_of(names: Vec<String>) -> (nodes: Vec<Expr>)
    ensures
        expr_views(nodes@) == parameters(texts(names@)),
{
    let mut nodes: Vec<Expr> = Vec::new();
    let mut i: usize = 0;
    while i < names.len()
        invariant
            i <= names.len(),
            nodes.len() == i,
            forall|j: int|
                0 <= j < i ==> nodes@[j]@ == ExprView::Parameter(names@[j]@, MType::Undefined),
        decreases names.len() - i,
    {
        nodes.push(Expr::Parameter(names[i].clone(), MType::Undefined));
        i += 1;
    }
    assert(expr_views(nodes@) =~= parameters(texts(names@)));
    nodes
}

impl Parser {
    /// The models of the tokens.
    pub closed spec fn tokens(&self) -> Seq<TokenView> {
        token_views(self.tokens@)
    }

    /// The state: the position of the current token, and the statements that
    /// the top level has parsed so far.
    pub closed spec fn state(&self) -> ParseState {
        ParseState { pos: self.current as int, done: expr_views(self.expressions@) }
    }

    /// Whether the parser, after a step, has kept its tokens and has parsed
    /// what the grammar says.
    pub open spec fn yields(
        &self,
        before: &Parser,
        expected: Parsed<ExprView>,
        result: Result<Expr, ParseError>,
    ) -> bool {
        &&& self.tokens() == before.tokens()
        &&& self.limit() == before.limit()
        &&& match expected {
            Ok((node, state)) => result is Ok && result->Ok_0@ == node && self.state() == state,
            Err(error) => result is Err && result->Err_0 == error,
        }
    }

    /// Whether the parser, after a step, has kept its tokens and has parsed
    /// the list that the grammar says.
    pub open spec fn lists(
        &self,
        before: &Parser,
        expected: Parsed<Seq<ExprView>>,
        result: Result<Vec<Expr>, ParseError>,
    ) -> bool {
        &&& self.tokens() == before.tokens()
        &&& self.limit() == before.limit()
        &&& match expected {
            Ok((nodes, state)) => result is Ok && expr_views(result->Ok_0@) == nodes
                && self.state() == state,
            Err(error) => result is Err && result->Err_0 == error,
        }
    }

    /// How far a step can take the parser: `at_end` tokens further where it
    /// stands at the end of the tokens or past it; elsewhere past the end by
    /// no more than `rank` and 64 for each unit of the budget of the step.
    spec fn reach(&self, fuel: nat, at_end: nat, rank: nat) -> int {
        if self.state().pos >= self.tokens().len() {
            self.state().pos + at_end
        } else {
            (self.tokens().len() + 64 * fuel + rank) as int
        }
    }

    /// Whether the position has room for a step: as far as the step can
    /// take it, it stays below 2 to the 100.
    spec fn roomy(&self, fuel: nat, at_end: nat, rank: nat) -> bool {
        self.reach(fuel, at_end, rank) <= 0x10_0000_0000_0000_0000_0000_0000
    }

    /// Whether the parser, after a step, stands no further on than the step
    /// could take it.
    spec fn kept(&self, before: &Parser, fuel: nat, at_end: nat, rank: nat) -> bool {
        self.state().pos <= before.reach(fuel, at_end, rank)
    }

    /// The budget that the parser spends on one call of `parse`.
    pub closed spec fn limit(&self) -> nat {
        self.budget as nat
    }

    /// Whether the budget suffices for the tokens that are left: it holds 64
    /// for each of them, and seven more.
    pub open spec fn well_fed(&self) -> bool {
        placed(self.state()) && self.limit() >= 64 * (self.tokens().len()
            - self.state().pos) + 7
    }

    /// A parser at the start of a run of tokens, with the largest budget,
    /// which suffices for every run of fewer than 2 to the 57 tokens.
    pub fn new(tokens: Vec<Token>) -> (parser: Parser)
        ensures
            parser.tokens() == token_views(tokens@),
            parser.state() == (ParseState { pos: 0, done: Seq::empty() }),
            parser.limit() == budget(),
            tokens.len() < 0x200_0000_0000_0000 ==> parser.well_fed(),
    {
        Parser::with_budget(tokens, u64::MAX)
    }

    /// A parser at the start of a run of tokens, with a budget of its own.
    pub fn with_budget(tokens: Vec<Token>, budget: u64) -> (parser: Parser)
        ensures
            parser.tokens() == token_views(tokens@),
            parser.state() == (ParseState { pos: 0, done: Seq::empty() }),
            parser.limit() == budget,
    {
        let parser = Parser { tokens, current: 0, expressions: Vec::new(), budget };
        assert(parser.state().done =~= Seq::<ExprView>::empty());
        parser
    }

    /// Parses the run of tokens from the current position to its end, and
    /// gives the statements of the top level: those parsed before, and those
    /// parsed now. Within a budget of 64 for each token that is left, and
    /// seven more, parsing does not end with `TooDeep`.
    pub fn parse(&mut self) -> (result: Result<Vec<Expr>, ParseError>)
        ensures
            final(self).tokens() == old(self).tokens(),
            final(self).limit() == old(self).limit(),
            old(self).well_fed() ==> !(result matches Err(ParseError::TooDeep)),
            match program(old(self).tokens(), old(self).state(), old(self).limit()) {
                Ok(state) => result is Ok && expr_views(result->Ok_0@) == state.done
                    && final(self).state() == state,
                Err(error) => result is Err && result->Err_0 == error,
            },
    {
        let ghost whole = program(self.tokens(), self.state(), self.limit());
        let ghost fed = self.well_fed();
        proof {
            if fed {
                law_enough_budget(self.tokens(), self.state(), self.limit());
            }
        }
        let mut fuel: u64 = self.budget;
        while self.current < self.tokens.len() as u128
            invariant
                self.tokens() == old(self).tokens(),
                self.limit() == old(self).limit(),
                whole == program(old(self).tokens(), old(self).state(), old(self).limit()),
                fed ==> whole != Err::<ParseState, ParseError>(ParseError::TooDeep),
                fed == old(self).well_fed(),
                whole == program(self.tokens(), self.state(), fuel as nat),
            decreases fuel,
        {
            if fuel == 0 {
                return Err(ParseError::TooDeep);
            }
            fuel = fuel - 1;
            match self.parse_statement(fuel) {
                Ok(item) => {
                    proof {
                        lemma_expr_views_push(self.expressions@, item);
                    }
                    self.expressions.push(item);
                },
                Err(error) => {
                    return Err(error);
                },
            }
        }
        Ok(duplicate_all(&self.expressions))
    }

    /// The current token.
    fn peek(&self) -> (token: Token)
        ensures
            token@ == peek(self.tokens(), self.state()),
    {
        if self.current < self.tokens.len() as u128 {
            self.tokens[self.current as usize].duplicate()
        } else {
            Token::EOF
        }
    }

    /// Gives the current token, or the end marker past the last token, and
    /// moves on by one in both cases.
    fn advance(&mut self) -> (token: Token)
        requires
            old(self).roomy(0, 1, 0),
        ensures
            final(self).kept(old(self), 0, 1, 0),
            final(self).tokens() == old(self).tokens(),
            final(self).limit() == old(self).limit(),
            token@ == peek(old(self).tokens(), old(self).state()),
            final(self).state() == step(old(self).state()),
    {
        let token = self.peek();
        self.current += 1;
        token
    }

    /// Moves back to the token before.
    fn retreat(&mut self)
        requires
            old(self).state().pos >= 1,
        ensures
            final(self).tokens() == old(self).tokens(),
            final(self).limit() == old(self).limit(),
            final(self).state() == back(old(self).state()),
    {
        self.current -= 1;
    }

    /// Moves past a semicolon, if one is the current token.
    fn pass_semicolon(&mut self)
        requires
            old(self).roomy(0, 0, 0),
        ensures
            final(self).kept(old(self), 0, 0, 0),
            final(self).tokens() == old(self).tokens(),
            final(self).limit() == old(self).limit(),
            final(self).state() == skip_semicolon(old(self).tokens(), old(self).state()),
    {
        match self.peek() {
            Token::Semicolon => {
                self.advance();
            },
            _ => {},
        }
    }

    /// Parses any statement, by its first token.
    #[verifier::rlimit(80)]
    fn parse_statement(&mut self, fuel: u64) -> (result: Result<Expr, ParseError>)
        requires
            old(self).roomy(fuel as nat, 0, 8),
        ensures
            final(self).kept(old(self), fuel as nat, 0, 8),
            result is Ok ==> final(self).state().pos >= old(self).state().pos,
            final(self).yields(
                old(self),
                statement(old(self).tokens(), old(self).state(), fuel as nat),
                result,
            ),
        decreases fuel, 0nat,
    {
        proof {
            moves_statement(self.tokens(), self.state(), fuel as nat);
        }
        if fuel == 0 {
            return Err(ParseError::TooDeep);
        }
        let fuel = fuel - 1;
        let token = self.peek();
        assert(token@ is EOF || self.state().pos < self.tokens().len());
        match token {
            Token::Plus => self.parse_expression(fuel),
            Token::Minus => self.parse_expression(fuel),
            Token::Star => self.parse_expression(fuel),
            Token::Slash => self.parse_expression(fuel),
            Token::RParen => self.parse_expression(fuel),
            Token::LBracket => self.parse_expression(fuel),
            Token::Comma => self.parse_expression(fuel),
            Token::Semicolon => self.parse_expression(fuel),
            Token::Not => self.parse_comparison(fuel),
            Token::LArrow => self.parse_comparison(fuel),
            Token::RArrow => self.parse_comparison(fuel),
            Token::Equality => self.parse_comparison(fuel),
            Token::Equal => self.parse_assignment(fuel),
            Token::Dot => {
                self.advance();
                self.parse_property_access(fuel)
            },
            Token::Let => self.parse_declaration(fuel),
            Token::Identifier(_) => self.parse_identifier(fuel),
            Token::Func => self.parse_function(false, fuel),
            Token::If => self.parse_conditional(fuel),
            Token::While => self.parse_while(fuel),
            Token::For => self.parse_for(fuel),
            Token::Return => self.parse_return(fuel),
            Token::Number(_) => self.parse_number(),
            Token::Import => self.parse_import(),
            Token::Class => self.parse_class(fuel),
            Token::String(_) => self.parse_string(),
            Token::LParen => self.parse_function(true, fuel),
            _ => Err(ParseError::UnexpectedToken),
        }
    }

    /// Parses a class declaration.
    fn parse_class(&mut self, fuel: u64) -> (result: Result<Expr, ParseError>)
        requires
            old(self).roomy(fuel as nat, 2, 8),
        ensures
            final(self).kept(old(self), fuel as nat, 2, 8),
            result is Ok ==> final(self).state().pos >= old(self).state().pos,
            final(self).yields(
                old(self),
                class(old(self).tokens(), old(self).state(), fuel as nat),
                result,
            ),
        decreases fuel, 0nat,
    {
        proof {
            moves_class(self.tokens(), self.state(), fuel as nat);
        }
        if fuel == 0 {
            return Err(ParseError::TooDeep);
        }
        self.advance();
        let name = match self.advance() {
            Token::Identifier(name) => name,
            _ => {
                return Err(ParseError::ExpectedIdentifier);
            },
        };
        match self.parse_block(fuel - 1) {
            Ok(body) => Ok(Expr::DecClass(name, Box::new(body))),
            Err(error) => Err(error),
        }
    }

    /// Parses a while loop.
    fn parse_while(&mut self, fuel: u64) -> (result: Result<Expr, ParseError>)
        requires
            old(self).roomy(fuel as nat, 1, 8),
        ensures
            final(self).kept(old(self), fuel as nat, 1, 8),
            result is Ok ==> final(self).state().pos >= old(self).state().pos,
            final(self).yields(
                old(self),
                while_loop(old(self).tokens(), old(self).state(), fuel as nat),
                result,
            ),
        decreases fuel, 0nat,
    {
        proof {
            moves_while_loop(self.tokens(), self.state(), fuel as nat);
        }
        if fuel == 0 {
            return Err(ParseError::TooDeep);
        }
        let fuel = fuel - 1;
        self.advance();
        let condition = match self.parse_comparison(fuel) {
            Ok(condition) => condition,
            Err(error) => {
                return Err(error);
            },
        };
        match self.parse_block(fuel) {
            Ok(body) => Ok(Expr::While(Box::new(condition), Box::new(body))),
            Err(error) => Err(error),
        }
    }

    /// Parses a for loop.
    fn parse_for(&mut self, fuel: u64) -> (result: Result<Expr, ParseError>)
        requires
            old(self).roomy(fuel as nat, 2, 8),
        ensures
            final(self).kept(old(self), fuel as nat, 2, 8),
            result is Ok ==> final(self).state().pos >= old(self).state().pos,
            final(self).yields(
                old(self),
                for_loop(old(self).tokens(), old(self).state(), fuel as nat),
                result,
            ),
        decreases fuel, 0nat,
    {
        proof {
            moves_for_loop(self.tokens(), self.state(), fuel as nat);
        }
        if fuel == 0 {
            return Err(ParseError::TooDeep);
        }
        let fuel = fuel - 1;
        self.advance();
        let name = match self.advance() {
            Token::Identifier(name) => name,
            _ => {
                return Err(ParseError::ExpectedIdentifier);
            },
        };
        self.advance();
        let iterable = match self.parse_statement(fuel) {
            Ok(iterable) => iterable,
            Err(error) => {
                return Err(error);
            },
        };
        match self.parse_block(fuel) {
            Ok(body) => Ok(Expr::For(name, Box::new(iterable), Box::new(body))),
            Err(error) => Err(error),
        }
    }

    /// Parses the right side of a comparison.
    fn parse_compared(&mut self, operator: Operator, left: Expr, fuel: u64) -> (result: Result<
        Expr,
        ParseError,
    >)
        requires
            old(self).roomy(fuel as nat, 0, 8),
        ensures
            final(self).kept(old(self), fuel as nat, 0, 8),
            result is Ok ==> final(self).state().pos >= old(self).state().pos,
            final(self).yields(
                old(self),
                compared(old(self).tokens(), old(self).state(), operator, left@, fuel as nat),
                result,
            ),
        decreases fuel, 0nat,
    {
        proof {
            moves_compared(self.tokens(), self.state(), operator, left@, fuel as nat);
        }
        if fuel == 0 {
            return Err(ParseError::TooDeep);
        }
        match self.parse_expression(fuel - 1) {
            Ok(right) => Ok(binary_of(operator, left, right)),
            Err(error) => Err(error),
        }
    }

    /// Parses a comparison, or the single operand that stands in its place.
    fn parse_comparison(&mut self, fuel: u64) -> (result: Result<Expr, ParseError>)
        requires
            old(self).roomy(fuel as nat, 0, 8),
        ensures
            final(self).kept(old(self), fuel as nat, 0, 8),
            result is Ok ==> final(self).state().pos >= old(self).state().pos,
            final(self).yields(
                old(self),
                comparison(old(self).tokens(), old(self).state(), fuel as nat),
                result,
            ),
        decreases fuel, 1nat,
    {
        proof {
            moves_comparison(self.tokens(), self.state(), fuel as nat);
        }
        let left = match self.peek() {
            Token::String(text) => Expr::String(text),
            Token::Identifier(name) => Expr::Identifier(name),
            Token::Number(value) => Expr::Number(value),
            _ => {
                return Err(ParseError::ExpectedOperand);
            },
        };
        self.advance();
        match self.peek() {
            Token::Not => {
                self.advance();
                match self.peek() {
                    Token::Equal => {
                        self.advance();
                        self.parse_compared(Operator::NotEqual, left, fuel)
                    },
                    _ => Err(ParseError::UnexpectedToken),
                }
            },
            Token::Equality => {
                self.advance();
                self.parse_compared(Operator::Equality, left, fuel)
            },
            Token::LArrow => {
                self.advance();
                match self.peek() {
                    Token::Equal => {
                        self.advance();
                        self.parse_compared(Operator::LesserEqual, left, fuel)
                    },
                    _ => self.parse_compared(Operator::Lesser, left, fuel),
                }
            },
            Token::RArrow => {
                self.advance();
                match self.peek() {
                    Token::Equal => {
                        self.advance();
                        self.parse_compared(Operator::GreaterEqual, left, fuel)
                    },
                    _ => self.parse_compared(Operator::Greater, left, fuel),
                }
            },
            _ => Ok(left),
        }
    }

    /// Parses what follows the body of a conditional.
    fn parse_otherwise(&mut self, fuel: u64) -> (result: Result<Vec<Expr>, ParseError>)
        requires
            old(self).roomy(fuel as nat, 0, 8),
        ensures
            final(self).kept(old(self), fuel as nat, 0, 8),
            result is Ok ==> final(self).state().pos >= old(self).state().pos,
            final(self).lists(
                old(self),
                otherwise(old(self).tokens(), old(self).state(), fuel as nat),
                result,
            ),
        decreases fuel, 0nat,
    {
        proof {
            moves_otherwise(self.tokens(), self.state(), fuel as nat);
        }
        if fuel == 0 {
            return Err(ParseError::TooDeep);
        }
        let fuel = fuel - 1;
        match self.peek() {
            Token::Else => {
                self.advance();
                match self.peek() {
                    Token::If => match self.parse_conditional(fuel) {
                        Ok(nested) => {
                            let mut second: Vec<Expr> = Vec::new();
                            second.push(nested);
                            assert(expr_views(second@) =~= seq![nested@]);
                            Ok(second)
                        },
                        Err(error) => Err(error),
                    },
                    _ => self.parse_block(fuel),
                }
            },
            _ => {
                let second: Vec<Expr> = Vec::new();
                assert(expr_views(second@) =~= Seq::<ExprView>::empty());
                Ok(second)
            },
        }
    }

    /// Parses an if statement with what follows it.
    fn parse_conditional(&mut self, fuel: u64) -> (result: Result<Expr, ParseError>)
        requires
            old(self).roomy(fuel as nat, 1, 8),
        ensures
            final(self).kept(old(self), fuel as nat, 1, 8),
            result is Ok ==> final(self).state().pos >= old(self).state().pos,
            final(self).yields(
                old(self),
                conditional(old(self).tokens(), old(self).state(), fuel as nat),
                result,
            ),
        decreases fuel, 0nat,
    {
        proof {
            moves_conditional(self.tokens(), self.state(), fuel as nat);
        }
        if fuel == 0 {
            return Err(ParseError::TooDeep);
        }
        let fuel = fuel - 1;
        self.advance();
        let condition = match self.parse_comparison(fuel) {
            Ok(condition) => condition,
            Err(error) => {
                return Err(error);
            },
        };
        let body = match self.parse_block(fuel) {
            Ok(body) => body,
            Err(error) => {
                return Err(error);
            },
        };
        match self.parse_otherwise(fuel) {
            Ok(second) => Ok(Expr::If(Box::new(condition), Box::new(body), Box::new(second))),
            Err(error) => Err(error),
        }
    }

    /// Parses an import statement.
    fn parse_import(&mut self) -> (result: Result<Expr, ParseError>)
        requires
            old(self).roomy(0, 2, 1),
        ensures
            final(self).kept(old(self), 0, 2, 1),
            result is Ok ==> final(self).state().pos >= old(self).state().pos,
            final(self).yields(old(self), import(old(self).tokens(), old(self).state()), result),
    {
        self.advance();
        let name = match self.advance() {
            Token::String(name) => name,
            _ => {
                return Err(ParseError::ExpectedString);
            },
        };
        self.pass_semicolon();
        Ok(Expr::Import(name))
    }

    /// Parses a return statement.
    fn parse_return(&mut self, fuel: u64) -> (result: Result<Expr, ParseError>)
        requires
            old(self).roomy(fuel as nat, 1, 8),
        ensures
            final(self).kept(old(self), fuel as nat, 1, 8),
            result is Ok ==> final(self).state().pos >= old(self).state().pos,
            final(self).yields(
                old(self),
                return_value(old(self).tokens(), old(self).state(), fuel as nat),
                result,
            ),
        decreases fuel, 0nat,
    {
        proof {
            moves_return_value(self.tokens(), self.state(), fuel as nat);
        }
        if fuel == 0 {
            return Err(ParseError::TooDeep);
        }
        self.advance();
        match self.parse_expression(fuel - 1) {
            Ok(value) => {
                self.pass_semicolon();
                Ok(Expr::Return(Box::new(value)))
            },
            Err(error) => Err(error),
        }
    }

    /// Parses the arguments of a call.
    fn parse_call_args(&mut self, fuel: u64) -> (result: Result<Vec<Expr>, ParseError>)
        requires
            old(self).roomy(fuel as nat, 0, 8),
        ensures
            final(self).kept(old(self), fuel as nat, 0, 8),
            result is Ok ==> final(self).state().pos >= old(self).state().pos,
            final(self).lists(
                old(self),
                call_args(old(self).tokens(), old(self).state(), Seq::empty(), fuel as nat),
                result,
            ),
        decreases fuel, 0nat,
    {
        proof {
            moves_call_args(self.tokens(), self.state(), Seq::empty(), fuel as nat);
        }
        let ghost whole = call_args(self.tokens(), self.state(), Seq::empty(), fuel as nat);
        let mut args: Vec<Expr> = Vec::new();
        let mut budget = fuel;
        let mut open = true;
        assert(expr_views(args@) =~= Seq::<ExprView>::empty());
        while open
            invariant
                budget <= fuel,
                old(self).roomy(fuel as nat, 0, 8),
                self.state().pos >= old(self).state().pos,
                self.state().pos <= old(self).reach(fuel as nat, 0, 8),
                self.tokens() == old(self).tokens(),
                self.limit() == old(self).limit(),
                whole == call_args(
                    old(self).tokens(),
                    old(self).state(),
                    Seq::empty(),
                    fuel as nat,
                ),
                open ==> whole == call_args(
                    self.tokens(),
                    self.state(),
                    expr_views(args@),
                    budget as nat,
                ),
                !open ==> whole == Ok::<_, ParseError>((expr_views(args@), self.state())),
            decreases budget,
        {
            if budget == 0 {
                return Err(ParseError::TooDeep);
            }
            budget = budget - 1;
            match self.peek() {
                Token::RParen => {
                    self.advance();
                    open = false;
                },
                Token::Semicolon => {
                    self.advance();
                    open = false;
                },
                Token::Plus => {
                    open = false;
                },
                Token::EOF => {
                    open = false;
                },
                Token::Comma => {
                    self.advance();
                },
                Token::LParen => match self.parse_function(true, budget) {
                    Ok(arg) => {
                        proof {
                            lemma_expr_views_push(args@, arg);
                        }
                        args.push(arg);
                    },
                    Err(error) => {
                        return Err(error);
                    },
                },
                _ => match self.parse_expression(budget) {
                    Ok(arg) => {
                        proof {
                            lemma_expr_views_push(args@, arg);
                        }
                        args.push(arg);
                    },
                    Err(error) => {
                        return Err(error);
                    },
                },
            }
        }
        Ok(args)
    }

    /// Parses a function call.
    fn parse_call(&mut self, fuel: u64) -> (result: Result<Expr, ParseError>)
        requires
            old(self).roomy(fuel as nat, 1, 8),
        ensures
            final(self).kept(old(self), fuel as nat, 1, 8),
            result is Ok ==> final(self).state().pos >= old(self).state().pos,
            final(self).yields(
                old(self),
                call(old(self).tokens(), old(self).state(), fuel as nat),
                result,
            ),
        decreases fuel, 0nat,
    {
        proof {
            moves_call(self.tokens(), self.state(), fuel as nat);
        }
        proof {
            reveal_with_fuel(Expr::model, 2);
        }
        if fuel == 0 {
            return Err(ParseError::TooDeep);
        }
        let name = match self.advance() {
            Token::Identifier(name) => name,
            _ => {
                return Err(ParseError::ExpectedIdentifier);
            },
        };
        self.advance();
        match self.parse_call_args(fuel - 1) {
            Ok(args) => {
                self.pass_semicolon();
                Ok(Expr::CallFunc(Box::new(Expr::Identifier(name)), Box::new(args)))
            },
            Err(error) => Err(error),
        }
    }

    /// Parses the parameters and the body of a function of a name.
    fn parse_function_of(&mut self, name: String, fuel: u64) -> (result: Result<Expr, ParseError>)
        requires
            old(self).roomy(fuel as nat, 1, 8),
        ensures
            final(self).kept(old(self), fuel as nat, 1, 8),
            result is Ok ==> final(self).state().pos >= old(self).state().pos,
            final(self).yields(
                old(self),
                function_of(old(self).tokens(), old(self).state(), name@, fuel as nat),
                result,
            ),
        decreases fuel, 0nat,
    {
        proof {
            moves_function_of(self.tokens(), self.state(), name@, fuel as nat);
        }
        if fuel == 0 {
            return Err(ParseError::TooDeep);
        }
        let fuel = fuel - 1;
        self.advance();
        let names = match self.parse_params(fuel) {
            Ok(names) => names,
            Err(error) => {
                return Err(error);
            },
        };
        match self.parse_block(fuel) {
            Ok(body) => Ok(
                Expr::DecFunc(name, parameters_of(names), Box::new(body), MType::Undefined),
            ),
            Err(error) => Err(error),
        }
    }

    /// Parses a function declaration.
    fn parse_function(&mut self, is_anonymous: bool, fuel: u64) -> (result: Result<
        Expr,
        ParseError,
    >)
        requires
            old(self).roomy(fuel as nat, 2, 8),
        ensures
            final(self).kept(old(self), fuel as nat, 2, 8),
            result is Ok ==> final(self).state().pos >= old(self).state().pos,
            final(self).yields(
                old(self),
                function(old(self).tokens(), old(self).state(), is_anonymous, fuel as nat),
                result,
            ),
        decreases fuel, 1nat,
    {
        proof {
            moves_function(self.tokens(), self.state(), is_anonymous, fuel as nat);
        }
        if is_anonymous {
            self.parse_function_of(String::from_str("anonymous"), fuel)
        } else {
            self.advance();
            match self.advance() {
                Token::Identifier(name) => self.parse_function_of(name, fuel),
                _ => Err(ParseError::ExpectedIdentifier),
            }
        }
    }

    /// Parses a block of statements.
    fn parse_block(&mut self, fuel: u64) -> (result: Result<Vec<Expr>, ParseError>)
        requires
            old(self).roomy(fuel as nat, 0, 8),
        ensures
            final(self).kept(old(self), fuel as nat, 0, 8),
            result is Ok ==> final(self).state().pos >= old(self).state().pos,
            final(self).lists(
                old(self),
                block(old(self).tokens(), old(self).state(), fuel as nat),
                result,
            ),
        decreases fuel, 1nat,
    {
        proof {
            moves_block(self.tokens(), self.state(), fuel as nat);
        }
        let ghost whole = block_items(self.tokens(), self.state(), Seq::empty(), fuel as nat);
        let mut items: Vec<Expr> = Vec::new();
        let mut budget = fuel;
        let mut open = true;
        assert(expr_views(items@) =~= Seq::<ExprView>::empty());
        while open
            invariant
                budget <= fuel,
                old(self).roomy(fuel as nat, 0, 8),
                self.state().pos >= old(self).state().pos,
                self.state().pos <= old(self).reach(fuel as nat, 0, 8),
                self.tokens() == old(self).tokens(),
                self.limit() == old(self).limit(),
                whole == block_items(
                    old(self).tokens(),
                    old(self).state(),
                    Seq::empty(),
                    fuel as nat,
                ),
                open ==> whole == block_items(
                    self.tokens(),
                    self.state(),
                    expr_views(items@),
                    budget as nat,
                ),
                !open ==> whole == Ok::<_, ParseError>((expr_views(items@), self.state())),
            decreases budget,
        {
            if budget == 0 {
                return Err(ParseError::TooDeep);
            }
            budget = budget - 1;
            match self.peek() {
                Token::LCurly => {
                    self.advance();
                },
                Token::RCurly => {
                    self.advance();
                    open = false;
                },
                _ => match self.parse_statement(budget) {
                    Ok(item) => {
                        proof {
                            lemma_expr_views_push(items@, item);
                        }
                        items.push(item);
                    },
                    Err(error) => {
                        return Err(error);
                    },
                },
            }
        }
        self.pass_semicolon();
        Ok(items)
    }

    /// Parses the names of the parameters of a declaration.
    fn parse_params(&mut self, fuel: u64) -> (result: Result<Vec<String>, ParseError>)
        requires
            old(self).roomy(fuel as nat, 0, 8),
        ensures
            final(self).kept(old(self), fuel as nat, 0, 8),
            result is Ok ==> final(self).state().pos >= old(self).state().pos,
            final(self).tokens() == old(self).tokens(),
            final(self).limit() == old(self).limit(),
            match params(old(self).tokens(), old(self).state(), Seq::empty(), fuel as nat) {
                Ok((names, state)) => result is Ok && texts(result->Ok_0@) == names
                    && final(self).state() == state,
                Err(error) => result is Err && result->Err_0 == error,
            },
    {
        proof {
            moves_params(self.tokens(), self.state(), Seq::empty(), fuel as nat);
        }
        let ghost whole = params(self.tokens(), self.state(), Seq::empty(), fuel as nat);
        let mut names: Vec<String> = Vec::new();
        let mut budget = fuel;
        let mut open = true;
        assert(texts(names@) =~= Seq::<Seq<char>>::empty());
        while open
            invariant
                budget <= fuel,
                old(self).roomy(fuel as nat, 0, 8),
                self.state().pos >= old(self).state().pos,
                self.state().pos <= old(self).reach(fuel as nat, 0, 8),
                self.tokens() == old(self).tokens(),
                self.limit() == old(self).limit(),
                whole == params(old(self).tokens(), old(self).state(), Seq::empty(), fuel as nat),
                open ==> whole == params(
                    self.tokens(),
                    self.state(),
                    texts(names@),
                    budget as nat,
                ),
                !open ==> whole == Ok::<_, ParseError>(
                    (texts(names@), self.state()),
                ),
            decreases budget,
        {
            if budget == 0 {
                return Err(ParseError::TooDeep);
            }
            budget = budget - 1;
            match self.peek() {
                Token::RParen => {
                    self.advance();
                    open = false;
                },
                Token::LParen => {
                    self.advance();
                },
                Token::Comma => {
                    self.advance();
                },
                Token::Identifier(name) => {
                    self.advance();
                    let ghost before = texts(names@);
                    names.push(name);
                    assert(texts(names@) =~= before.push(name@));
                },
                _ => {
                    return Err(ParseError::UnexpectedToken);
                },
            }
        }
        Ok(names)
    }

    /// Parses what an identifier begins.
    fn parse_identifier(&mut self, fuel: u64) -> (result: Result<Expr, ParseError>)
        requires
            old(self).roomy(fuel as nat, 1, 8),
        ensures
            final(self).kept(old(self), fuel as nat, 1, 8),
            result is Ok ==> final(self).state().pos >= old(self).state().pos,
            final(self).yields(
                old(self),
                identifier(old(self).tokens(), old(self).state(), fuel as nat),
                result,
            ),
        decreases fuel, 0nat,
    {
        proof {
            moves_identifier(self.tokens(), self.state(), fuel as nat);
        }
        if fuel == 0 {
            return Err(ParseError::TooDeep);
        }
        let fuel = fuel - 1;
        let name = match self.advance() {
            Token::Identifier(name) => name,
            _ => {
                return Err(ParseError::ExpectedIdentifier);
            },
        };
        if spells(&name, "pass") {
            self.pass_semicolon();
            return Ok(Expr::Pass);
        }
        match self.peek() {
            Token::LParen => {
                self.retreat();
                self.parse_call(fuel)
            },
            Token::LBracket => {
                self.retreat();
                self.parse_array_access(fuel)
            },
            Token::Semicolon => {
                self.advance();
                Ok(Expr::Identifier(name))
            },
            Token::Plus => self.parse_signed(name, fuel),
            Token::Minus => self.parse_signed(name, fuel),
            Token::Dot => {
                self.retreat();
                self.parse_property_access(fuel)
            },
            _ => Ok(Expr::Identifier(name)),
        }
    }

    /// Parses what follows an identifier before a plus or minus sign: the
    /// shorthand assignment where an equals sign follows the sign, and
    /// nothing more than the identifier otherwise.
    fn parse_signed(&mut self, name: String, fuel: u64) -> (result: Result<Expr, ParseError>)
        requires
            old(self).roomy(fuel as nat, 0, 8),
            old(self).state().pos >= 1,
            peek(old(self).tokens(), back(old(self).state())) == TokenView::Identifier(name@),
            peek(old(self).tokens(), old(self).state()) is Plus || peek(
                old(self).tokens(),
                old(self).state(),
            ) is Minus,
        ensures
            final(self).kept(old(self), fuel as nat, 0, 8),
            result is Ok ==> final(self).state().pos >= old(self).state().pos,
            final(self).tokens() == old(self).tokens(),
            final(self).limit() == old(self).limit(),
            if peek(old(self).tokens(), step(old(self).state())) is Equal {
                final(self).yields(
                    old(self),
                    shorthand(old(self).tokens(), back(old(self).state()), fuel as nat),
                    result,
                )
            } else {
                final(self).yields(
                    old(self),
                    Ok((ExprView::Identifier(name@), old(self).state())),
                    result,
                )
            },
        decreases fuel, 1nat,
    {
        proof {
            moves_shorthand(self.tokens(), back(self.state()), fuel as nat);
        }
        self.advance();
        match self.peek() {
            Token::Equal => {
                self.retreat();
                self.retreat();
                self.parse_shorthand_assignment(fuel)
            },
            _ => {
                self.retreat();
                Ok(Expr::Identifier(name))
            },
        }
    }

    /// Parses an array access.
    fn parse_array_access(&mut self, fuel: u64) -> (result: Result<Expr, ParseError>)
        requires
            old(self).roomy(fuel as nat, 0, 8),
        ensures
            final(self).kept(old(self), fuel as nat, 0, 8),
            result is Ok ==> final(self).state().pos >= old(self).state().pos,
            final(self).yields(
                old(self),
                array_access(old(self).tokens(), old(self).state(), fuel as nat),
                result,
            ),
        decreases fuel, 0nat,
    {
        proof {
            moves_array_access(self.tokens(), self.state(), fuel as nat);
        }
        if fuel == 0 {
            return Err(ParseError::TooDeep);
        }
        let name = match self.peek() {
            Token::Identifier(name) => name,
            _ => {
                return Err(ParseError::ExpectedIdentifier);
            },
        };
        self.advance();
        self.advance();
        match self.parse_expression(fuel - 1) {
            Ok(index) => {
                self.advance();
                self.pass_semicolon();
                Ok(Expr::ArrayAccess(name, Box::new(index)))
            },
            Err(error) => Err(error),
        }
    }

    /// Parses the annotation of a declared name.
    fn parse_annotation(&mut self) -> (result: Result<MType, ParseError>)
        requires
            old(self).roomy(0, 0, 1),
        ensures
            final(self).kept(old(self), 0, 0, 1),
            result is Ok ==> final(self).state().pos >= old(self).state().pos,
            final(self).tokens() == old(self).tokens(),
            final(self).limit() == old(self).limit(),
            match annotation(old(self).tokens(), old(self).state()) {
                Ok((expected, state)) => result == Ok::<MType, ParseError>(expected)
                    && final(self).state() == state,
                Err(error) => result == Err::<MType, ParseError>(error),
            },
    {
        match self.peek() {
            Token::Colon => {
                self.advance();
                match self.advance() {
                    Token::Identifier(name) => match type_of(&name) {
                        Some(found) => Ok(found),
                        None => Err(ParseError::UnknownType),
                    },
                    _ => Ok(MType::Undefined),
                }
            },
            _ => Ok(MType::Undefined),
        }
    }

    /// Parses the value of a declaration.
    fn parse_declared_value(&mut self, fuel: u64) -> (result: Result<Expr, ParseError>)
        requires
            old(self).roomy(fuel as nat, 0, 8),
        ensures
            final(self).kept(old(self), fuel as nat, 0, 8),
            result is Ok ==> final(self).state().pos >= old(self).state().pos,
            final(self).yields(
                old(self),
                declared_value(old(self).tokens(), old(self).state(), fuel as nat),
                result,
            ),
        decreases fuel, 0nat,
    {
        proof {
            moves_declared_value(self.tokens(), self.state(), fuel as nat);
        }
        if fuel == 0 {
            return Err(ParseError::TooDeep);
        }
        let fuel = fuel - 1;
        let value = match self.parse_statement(fuel) {
            Ok(value) => value,
            Err(error) => {
                return Err(error);
            },
        };
        match self.peek() {
            Token::Plus => {
                self.advance();
                match self.parse_expression(fuel) {
                    Ok(more) => Ok(binary_of(Operator::Add, value, more)),
                    Err(error) => Err(error),
                }
            },
            _ => Ok(value),
        }
    }

    /// Parses a declaration.
    fn parse_declaration(&mut self, fuel: u64) -> (result: Result<Expr, ParseError>)
        requires
            old(self).roomy(fuel as nat, 1, 8),
        ensures
            final(self).kept(old(self), fuel as nat, 1, 8),
            result is Ok ==> final(self).state().pos >= old(self).state().pos,
            final(self).yields(
                old(self),
                declaration(old(self).tokens(), old(self).state(), fuel as nat),
                result,
            ),
        decreases fuel, 0nat,
    {
        proof {
            moves_declaration(self.tokens(), self.state(), fuel as nat);
        }
        if fuel == 0 {
            return Err(ParseError::TooDeep);
        }
        self.advance();
        let name = match self.peek() {
            Token::Identifier(name) => name,
            _ => {
                return Err(ParseError::ExpectedIdentifier);
            },
        };
        self.advance();
        let found = match self.parse_annotation() {
            Ok(found) => found,
            Err(error) => {
                return Err(error);
            },
        };
        self.advance();
        match self.parse_declared_value(fuel - 1) {
            Ok(value) => {
                self.pass_semicolon();
                Ok(binary_of(Operator::Declare(found), Expr::Identifier(name), value))
            },
            Err(error) => Err(error),
        }
    }

    /// Parses an assignment to the name that the top level has taken for a
    /// statement.
    fn parse_assignment(&mut self, fuel: u64) -> (result: Result<Expr, ParseError>)
        requires
            old(self).roomy(fuel as nat, 1, 8),
        ensures
            final(self).kept(old(self), fuel as nat, 1, 8),
            result is Ok ==> final(self).state().pos >= old(self).state().pos,
            final(self).yields(
                old(self),
                assignment(old(self).tokens(), old(self).state(), fuel as nat),
                result,
            ),
        decreases fuel, 0nat,
    {
        proof {
            moves_assignment(self.tokens(), self.state(), fuel as nat);
        }
        if fuel == 0 {
            return Err(ParseError::TooDeep);
        }
        if self.current < 1 || self.expressions.len() == 0 {
            proof {
                lemma_expr_views(self.expressions@);
            }
            return Err(ParseError::NothingBefore);
        }
        self.retreat();
        proof {
            lemma_expr_views(self.expressions@);
        }
        self.expressions.pop();
        proof {
            lemma_expr_views(self.expressions@);
            assert(expr_views(self.expressions@) =~= old(self).state().done.drop_last());
        }
        let name = match self.peek() {
            Token::Identifier(name) => name,
            _ => {
                return Err(ParseError::ExpectedIdentifier);
            },
        };
        self.advance();
        self.advance();
        match self.parse_expression(fuel - 1) {
            Ok(value) => {
                self.pass_semicolon();
                Ok(binary_of(Operator::Assign, Expr::Identifier(name), value))
            },
            Err(error) => Err(error),
        }
    }

    /// Parses a shorthand assignment.
    fn parse_shorthand_assignment(&mut self, fuel: u64) -> (result: Result<Expr, ParseError>)
        requires
            old(self).roomy(fuel as nat, 1, 8),
        ensures
            final(self).kept(old(self), fuel as nat, 1, 8),
            result is Ok ==> final(self).state().pos >= old(self).state().pos,
            final(self).yields(
                old(self),
                shorthand(old(self).tokens(), old(self).state(), fuel as nat),
                result,
            ),
        decreases fuel, 0nat,
    {
        proof {
            moves_shorthand(self.tokens(), self.state(), fuel as nat);
        }
        if fuel == 0 {
            return Err(ParseError::TooDeep);
        }
        let name = match self.advance() {
            Token::Identifier(name) => name,
            _ => {
                return Err(ParseError::ExpectedIdentifier);
            },
        };
        let operator = match self.advance() {
            Token::Plus => Operator::Add,
            Token::Minus => Operator::Subtract,
            _ => {
                return Err(ParseError::UnexpectedToken);
            },
        };
        self.advance();
        match self.parse_expression(fuel - 1) {
            Ok(value) => {
                self.pass_semicolon();
                let sum = binary_of(operator, Expr::Identifier(name.clone()), value);
                Ok(binary_of(Operator::Assign, Expr::Identifier(name), sum))
            },
            Err(error) => Err(error),
        }
    }

    /// Parses what an expression begins with.
    fn parse_primary(&mut self, fuel: u64) -> (result: Result<Expr, ParseError>)
        requires
            old(self).roomy(fuel as nat, 0, 8),
        ensures
            final(self).kept(old(self), fuel as nat, 0, 8),
            result is Ok ==> final(self).state().pos >= old(self).state().pos,
            final(self).yields(
                old(self),
                primary(old(self).tokens(), old(self).state(), fuel as nat),
                result,
            ),
        decreases fuel, 0nat,
    {
        proof {
            moves_primary(self.tokens(), self.state(), fuel as nat);
        }
        if fuel == 0 {
            return Err(ParseError::TooDeep);
        }
        let fuel = fuel - 1;
        match self.peek() {
            Token::String(_) => self.parse_string(),
            Token::Identifier(_) => self.parse_identifier(fuel),
            Token::Number(_) => self.parse_number(),
            Token::LBracket => self.parse_array(fuel),
            Token::Plus => self.parse_before(fuel),
            Token::Minus => self.parse_before(fuel),
            _ => Err(ParseError::ExpectedOperand),
        }
    }

    /// Parses the shorthand assignment of the name before the current token,
    /// which is a sign.
    fn parse_before(&mut self, fuel: u64) -> (result: Result<Expr, ParseError>)
        requires
            old(self).roomy(fuel as nat, 0, 8),
            peek(old(self).tokens(), old(self).state()) is Plus || peek(
                old(self).tokens(),
                old(self).state(),
            ) is Minus,
        ensures
            final(self).kept(old(self), fuel as nat, 0, 8),
            result is Ok ==> final(self).state().pos >= old(self).state().pos,
            final(self).tokens() == old(self).tokens(),
            final(self).limit() == old(self).limit(),
            if old(self).state().pos < 1 {
                result == Err::<Expr, ParseError>(ParseError::NothingBefore)
            } else {
                final(self).yields(
                    old(self),
                    shorthand(old(self).tokens(), back(old(self).state()), fuel as nat),
                    result,
                )
            },
        decreases fuel, 1nat,
    {
        proof {
            if self.state().pos >= 1 {
                moves_shorthand(self.tokens(), back(self.state()), fuel as nat);
            }
        }
        if self.current < 1 {
            return Err(ParseError::NothingBefore);
        }
        self.retreat();
        self.parse_shorthand_assignment(fuel)
    }

    /// Parses the operations that follow the first operand of an expression.
    fn parse_operations(&mut self, first: Expr, fuel: u64) -> (result: Result<Expr, ParseError>)
        requires
            old(self).roomy(fuel as nat, 0, 8),
        ensures
            final(self).kept(old(self), fuel as nat, 0, 8),
            result is Ok ==> final(self).state().pos >= old(self).state().pos,
            final(self).yields(
                old(self),
                operations(old(self).tokens(), old(self).state(), first@, fuel as nat),
                result,
            ),
        decreases fuel, 0nat,
    {
        proof {
            moves_operations(self.tokens(), self.state(), first@, fuel as nat);
        }
        let ghost whole = operations(self.tokens(), self.state(), first@, fuel as nat);
        let mut left = first;
        let mut budget = fuel;
        let mut open = true;
        while open
            invariant
                budget <= fuel,
                old(self).roomy(fuel as nat, 0, 8),
                self.state().pos >= old(self).state().pos,
                self.state().pos <= old(self).reach(fuel as nat, 0, 8),
                self.tokens() == old(self).tokens(),
                self.limit() == old(self).limit(),
                whole == operations(old(self).tokens(), old(self).state(), first@, fuel as nat),
                open ==> whole == operations(self.tokens(), self.state(), left@, budget as nat),
                !open ==> whole == Ok::<_, ParseError>((left@, self.state())),
            decreases budget,
        {
            if budget == 0 {
                return Err(ParseError::TooDeep);
            }
            budget = budget - 1;
            let operator = match self.peek() {
                Token::Plus => Some(Operator::Add),
                Token::Minus => Some(Operator::Subtract),
                Token::Star => Some(Operator::Multiply),
                Token::Slash => Some(Operator::Divide),
                _ => None,
            };
            match operator {
                Some(operator) => {
                    self.advance();
                    match self.parse_statement(budget) {
                        Ok(right) => {
                            left = binary_of(operator, left, right);
                        },
                        Err(error) => {
                            return Err(error);
                        },
                    }
                },
                None => {
                    open = false;
                },
            }
        }
        Ok(left)
    }

    /// Parses an expression.
    fn parse_expression(&mut self, fuel: u64) -> (result: Result<Expr, ParseError>)
        requires
            old(self).roomy(fuel as nat, 0, 8),
        ensures
            final(self).kept(old(self), fuel as nat, 0, 8),
            result is Ok ==> final(self).state().pos >= old(self).state().pos,
            final(self).yields(
                old(self),
                expression(old(self).tokens(), old(self).state(), fuel as nat),
                result,
            ),
        decreases fuel, 0nat,
    {
        proof {
            moves_expression(self.tokens(), self.state(), fuel as nat);
        }
        if fuel == 0 {
            return Err(ParseError::TooDeep);
        }
        let fuel = fuel - 1;
        match self.peek() {
            Token::RBracket => {
                self.advance();
                let items: Vec<Expr> = Vec::new();
                assert(expr_views(items@) =~= Seq::<ExprView>::empty());
                return Ok(Expr::Array(Box::new(items)));
            },
            _ => {},
        }
        let first = match self.parse_primary(fuel) {
            Ok(first) => first,
            Err(error) => {
                return Err(error);
            },
        };
        match self.parse_operations(first, fuel) {
            Ok(whole) => {
                self.pass_semicolon();
                Ok(whole)
            },
            Err(error) => Err(error),
        }
    }

    /// Parses the elements of an array.
    fn parse_array_items(&mut self, fuel: u64) -> (result: Result<Vec<Expr>, ParseError>)
        requires
            old(self).roomy(fuel as nat, 0, 8),
        ensures
            final(self).kept(old(self), fuel as nat, 0, 8),
            result is Ok ==> final(self).state().pos >= old(self).state().pos,
            final(self).lists(
                old(self),
                array_items(old(self).tokens(), old(self).state(), Seq::empty(), fuel as nat),
                result,
            ),
        decreases fuel, 0nat,
    {
        proof {
            moves_array_items(self.tokens(), self.state(), Seq::empty(), fuel as nat);
        }
        let ghost whole = array_items(self.tokens(), self.state(), Seq::empty(), fuel as nat);
        let mut items: Vec<Expr> = Vec::new();
        let mut budget = fuel;
        let mut open = true;
        assert(expr_views(items@) =~= Seq::<ExprView>::empty());
        while open
            invariant
                budget <= fuel,
                old(self).roomy(fuel as nat, 0, 8),
                self.state().pos >= old(self).state().pos,
                self.state().pos <= old(self).reach(fuel as nat, 0, 8),
                self.tokens() == old(self).tokens(),
                self.limit() == old(self).limit(),
                whole == array_items(
                    old(self).tokens(),
                    old(self).state(),
                    Seq::empty(),
                    fuel as nat,
                ),
                open ==> whole == array_items(
                    self.tokens(),
                    self.state(),
                    expr_views(items@),
                    budget as nat,
                ),
                !open ==> whole == Ok::<_, ParseError>((expr_views(items@), self.state())),
            decreases budget,
        {
            if budget == 0 {
                return Err(ParseError::TooDeep);
            }
            budget = budget - 1;
            match self.peek() {
                Token::RBracket => {
                    self.advance();
                    open = false;
                },
                Token::Semicolon => {
                    self.advance();
                    open = false;
                },
                Token::LCurly => {
                    open = false;
                },
                Token::Comma => {
                    self.advance();
                },
                _ => match self.parse_expression(budget) {
                    Ok(item) => {
                        proof {
                            lemma_expr_views_push(items@, item);
                        }
                        items.push(item);
                    },
                    Err(error) => {
                        return Err(error);
                    },
                },
            }
        }
        Ok(items)
    }

    /// Parses an array.
    fn parse_array(&mut self, fuel: u64) -> (result: Result<Expr, ParseError>)
        requires
            old(self).roomy(fuel as nat, 1, 8),
        ensures
            final(self).kept(old(self), fuel as nat, 1, 8),
            result is Ok ==> final(self).state().pos >= old(self).state().pos,
            final(self).yields(
                old(self),
                array(old(self).tokens(), old(self).state(), fuel as nat),
                result,
            ),
        decreases fuel, 0nat,
    {
        proof {
            moves_array(self.tokens(), self.state(), fuel as nat);
        }
        if fuel == 0 {
            return Err(ParseError::TooDeep);
        }
        self.advance();
        match self.parse_array_items(fuel - 1) {
            Ok(items) => Ok(Expr::Array(Box::new(items))),
            Err(error) => Err(error),
        }
    }

    /// Parses a number token into a number, or an identifier token into an
    /// identifier.
    fn parse_number(&mut self) -> (result: Result<Expr, ParseError>)
        requires
            old(self).roomy(0, 1, 0),
        ensures
            final(self).kept(old(self), 0, 1, 0),
            result is Ok ==> final(self).state().pos >= old(self).state().pos,
            final(self).yields(old(self), number(old(self).tokens(), old(self).state()), result),
    {
        match self.advance() {
            Token::Number(value) => Ok(Expr::Number(value)),
            Token::Identifier(name) => Ok(Expr::Identifier(name)),
            _ => Err(ParseError::ExpectedOperand),
        }
    }

    /// Parses a string token into a string.
    fn parse_string(&mut self) -> (result: Result<Expr, ParseError>)
        requires
            old(self).roomy(0, 1, 0),
        ensures
            final(self).kept(old(self), 0, 1, 0),
            result is Ok ==> final(self).state().pos >= old(self).state().pos,
            final(self).yields(old(self), string(old(self).tokens(), old(self).state()), result),
    {
        match self.advance() {
            Token::String(text) => Ok(Expr::String(text)),
            _ => Err(ParseError::ExpectedString),
        }
    }

    /// Parses a property access, from the object on.
    fn parse_property_access(&mut self, fuel: u64) -> (result: Result<Expr, ParseError>)
        requires
            old(self).roomy(fuel as nat, 0, 8),
        ensures
            final(self).kept(old(self), fuel as nat, 0, 8),
            result is Ok ==> final(self).state().pos >= old(self).state().pos,
            final(self).yields(
                old(self),
                property_access(old(self).tokens(), old(self).state(), fuel as nat),
                result,
            ),
        decreases fuel, 0nat,
    {
        proof {
            moves_property_access(self.tokens(), self.state(), fuel as nat);
        }
        proof {
            reveal_with_fuel(Expr::model, 2);
        }
        if fuel == 0 {
            return Err(ParseError::TooDeep);
        }
        let name = match self.peek() {
            Token::Identifier(name) => name,
            _ => {
                return Err(ParseError::ExpectedIdentifier);
            },
        };
        self.advance();
        self.advance();
        match self.parse_expression(fuel - 1) {
            Ok(member) => Ok(
                Expr::PropertyAccess(Box::new(Expr::Identifier(name)), Box::new(member)),
            ),
            Err(error) => Err(error),
        }
    }
}

} // verus!
