//! What parsing yields, as a mathematical function from a run of tokens and
//! a position to a syntax tree and the position after it. The parser is
//! proved to compute exactly this.
//!
//! Every function takes a budget, which each nested construct and each
//! repetition lowers by one: parsing ends with `TooDeep` where it runs out.

use vstd::prelude::*;
use crate::enums::{ExprView, MType, Operator, TokenView};

verus! {

/// Why a run of tokens has no syntax tree.
#[derive(Clone, Copy, Debug, PartialEq, Eq, Structural)]
pub enum ParseError {
    /// A token stands where nothing can begin or go on with it.
    UnexpectedToken,
    /// An identifier was to come.
    ExpectedIdentifier,
    /// A number, a string or an identifier was to come.
    ExpectedOperand,
    /// A string was to come.
    ExpectedString,
    /// A type annotation names no type.
    UnknownType,
    /// Something refers to what stands before it, and nothing does.
    NothingBefore,
    /// The budget ran out.
    TooDeep,
}

/// The state of the parser: the position of the current token, and the
/// statements that the top level has parsed so far.
pub struct ParseState {
    pub pos: int,
    pub done: Seq<ExprView>,
}

/// A parsed item with the state after it, or the reason why there is none.
pub type Parsed<T> = Result<(T, ParseState), ParseError>;

/// The current token; the end marker past the last token.
pub open spec fn peek(tokens: Seq<TokenView>, state: ParseState) -> TokenView {
    if 0 <= state.pos < tokens.len() {
        tokens[state.pos]
    } else {
        TokenView::EOF
    }
}

/// The state one token further on, at the end of the tokens and past it as
/// anywhere else.
pub open spec fn step(state: ParseState) -> ParseState {
    ParseState { pos: state.pos + 1, ..state }
}

/// The state one token back.
pub open spec fn back(state: ParseState) -> ParseState {
    ParseState { pos: state.pos - 1, ..state }
}

/// The state after a semicolon, if one is the current token.
pub open spec fn skip_semicolon(tokens: Seq<TokenView>, state: ParseState) -> ParseState {
    if peek(tokens, state) is Semicolon {
        step(state)
    } else {
        state
    }
}

/// The annotation that a type name stands for.
pub open spec fn type_named(name: Seq<char>) -> Option<MType> {
    if name == "Number"@ {
        Some(MType::Number)
    } else if name == "String"@ {
        Some(MType::String)
    } else if name == "Function"@ {
        Some(MType::Function)
    } else if name == "Class"@ {
        Some(MType::Class)
    } else if name == "Struct"@ {
        Some(MType::Struct)
    } else if name == "Unknown"@ {
        Some(MType::Undefined)
    } else {
        None
    }
}

/// The name under which a function without a name is declared.
pub open spec fn anonymous() -> Seq<char> {
    "anonymous"@
}

/// The identifier that stands for an empty statement.
pub open spec fn pass_word() -> Seq<char> {
    "pass"@
}

/// A number token as a number, an identifier token as an identifier.
pub open spec fn number(tokens: Seq<TokenView>, state: ParseState) -> Parsed<ExprView> {
    match peek(tokens, state) {
        TokenView::Number(value) => Ok((ExprView::Number(value), step(state))),
        TokenView::Identifier(name) => Ok((ExprView::Identifier(name), step(state))),
        _ => Err(ParseError::ExpectedOperand),
    }
}

/// A string token as a string.
pub open spec fn string(tokens: Seq<TokenView>, state: ParseState) -> Parsed<ExprView> {
    match peek(tokens, state) {
        TokenView::String(text) => Ok((ExprView::String(text), step(state))),
        _ => Err(ParseError::ExpectedString),
    }
}

/// `import "name"`, with the semicolon after it if there is one.
pub open spec fn import(tokens: Seq<TokenView>, state: ParseState) -> Parsed<ExprView> {
    let named = step(state);
    match peek(tokens, named) {
        TokenView::String(name) => Ok(
            (ExprView::Import(name), skip_semicolon(tokens, step(named))),
        ),
        _ => Err(ParseError::ExpectedString),
    }
}

/// The operand that a comparison begins with.
pub open spec fn operand(token: TokenView) -> Option<ExprView> {
    match token {
        TokenView::String(text) => Some(ExprView::String(text)),
        TokenView::Identifier(name) => Some(ExprView::Identifier(name)),
        TokenView::Number(value) => Some(ExprView::Number(value)),
        _ => None,
    }
}

/// The arithmetic operator that a token stands for.
pub open spec fn arithmetic(token: TokenView) -> Option<Operator> {
    match token {
        TokenView::Plus => Some(Operator::Add),
        TokenView::Minus => Some(Operator::Subtract),
        TokenView::Star => Some(Operator::Multiply),
        TokenView::Slash => Some(Operator::Divide),
        _ => None,
    }
}

/// The parameters of a declaration as nodes: none of them is annotated.
pub open spec fn parameters(names: Seq<Seq<char>>) -> Seq<ExprView> {
    Seq::new(names.len(), |i: int| ExprView::Parameter(names[i], MType::Undefined))
}

/// A binary operation.
pub open spec fn binary(operator: Operator, left: ExprView, right: ExprView) -> ExprView {
    ExprView::BinOp(operator, Box::new(left), Box::new(right))
}

/// The names of the parameters of a declaration, up to the closing
/// parenthesis. Commas and opening parentheses are passed over.
pub open spec fn params(
    tokens: Seq<TokenView>,
    state: ParseState,
    names: Seq<Seq<char>>,
    fuel: nat,
) -> Parsed<Seq<Seq<char>>>
    decreases fuel, 0nat,
{
    if fuel == 0 {
        Err(ParseError::TooDeep)
    } else {
        match peek(tokens, state) {
            TokenView::RParen => Ok((names, step(state))),
            TokenView::LParen | TokenView::Comma => params(
                tokens,
                step(state),
                names,
                (fuel - 1) as nat,
            ),
            TokenView::Identifier(name) => params(
                tokens,
                step(state),
                names.push(name),
                (fuel - 1) as nat,
            ),
            _ => Err(ParseError::UnexpectedToken),
        }
    }
}

/// Any statement, by its first token.
pub open spec fn statement(tokens: Seq<TokenView>, state: ParseState, fuel: nat) -> Parsed<
    ExprView,
>
    decreases fuel, 0nat,
{
    if fuel == 0 {
        Err(ParseError::TooDeep)
    } else {
        let fuel = (fuel - 1) as nat;
        match peek(tokens, state) {
            TokenView::Plus
            | TokenView::Minus
            | TokenView::Star
            | TokenView::Slash
            | TokenView::RParen
            | TokenView::LBracket
            | TokenView::Comma
            | TokenView::Semicolon => expression(tokens, state, fuel),
            TokenView::Not
            | TokenView::LArrow
            | TokenView::RArrow
            | TokenView::Equality => comparison(tokens, state, fuel),
            TokenView::Equal => assignment(tokens, state, fuel),
            TokenView::Dot => property_access(tokens, step(state), fuel),
            TokenView::Let => declaration(tokens, state, fuel),
            TokenView::Identifier(_) => identifier(tokens, state, fuel),
            TokenView::Func => function(tokens, state, false, fuel),
            TokenView::If => conditional(tokens, state, fuel),
            TokenView::While => while_loop(tokens, state, fuel),
            TokenView::For => for_loop(tokens, state, fuel),
            TokenView::Return => return_value(tokens, state, fuel),
            TokenView::Number(_) => number(tokens, state),
            TokenView::Import => import(tokens, state),
            TokenView::Class => class(tokens, state, fuel),
            TokenView::String(_) => string(tokens, state),
            TokenView::LParen => function(tokens, state, true, fuel),
            _ => Err(ParseError::UnexpectedToken),
        }
    }
}

/// `class Name { ... }`.
pub open spec fn class(tokens: Seq<TokenView>, state: ParseState, fuel: nat) -> Parsed<ExprView>
    decreases fuel, 0nat,
{
    if fuel == 0 {
        Err(ParseError::TooDeep)
    } else {
        let named = step(state);
        match peek(tokens, named) {
            TokenView::Identifier(name) => match block(
                tokens,
                step(named),
                (fuel - 1) as nat,
            ) {
                Ok((body, after)) => Ok((ExprView::DecClass(name, body), after)),
                Err(error) => Err(error),
            },
            _ => Err(ParseError::ExpectedIdentifier),
        }
    }
}

/// `while condition { ... }`.
pub open spec fn while_loop(tokens: Seq<TokenView>, state: ParseState, fuel: nat) -> Parsed<
    ExprView,
>
    decreases fuel, 0nat,
{
    if fuel == 0 {
        Err(ParseError::TooDeep)
    } else {
        let fuel = (fuel - 1) as nat;
        match comparison(tokens, step(state), fuel) {
            Ok((condition, then)) => match block(tokens, then, fuel) {
                Ok((body, after)) => Ok((ExprView::While(Box::new(condition), body), after)),
                Err(error) => Err(error),
            },
            Err(error) => Err(error),
        }
    }
}

/// `for name of iterable { ... }`.
pub open spec fn for_loop(tokens: Seq<TokenView>, state: ParseState, fuel: nat) -> Parsed<
    ExprView,
>
    decreases fuel, 0nat,
{
    if fuel == 0 {
        Err(ParseError::TooDeep)
    } else {
        let fuel = (fuel - 1) as nat;
        let named = step(state);
        match peek(tokens, named) {
            TokenView::Identifier(name) => match statement(
                tokens,
                step(step(named)),
                fuel,
            ) {
                Ok((iterable, then)) => match block(tokens, then, fuel) {
                    Ok((body, after)) => Ok(
                        (ExprView::For(name, Box::new(iterable), body), after),
                    ),
                    Err(error) => Err(error),
                },
                Err(error) => Err(error),
            },
            _ => Err(ParseError::ExpectedIdentifier),
        }
    }
}

/// The comparison of `left` with the expression at `state`.
pub open spec fn compared(
    tokens: Seq<TokenView>,
    state: ParseState,
    operator: Operator,
    left: ExprView,
    fuel: nat,
) -> Parsed<ExprView>
    decreases fuel, 0nat,
{
    if fuel == 0 {
        Err(ParseError::TooDeep)
    } else {
        match expression(tokens, state, (fuel - 1) as nat) {
            Ok((right, after)) => Ok((binary(operator, left, right), after)),
            Err(error) => Err(error),
        }
    }
}

/// A comparison, or the single operand that stands in its place.
pub open spec fn comparison(tokens: Seq<TokenView>, state: ParseState, fuel: nat) -> Parsed<
    ExprView,
>
    decreases fuel, 1nat,
{
    match operand(peek(tokens, state)) {
        None => Err(ParseError::ExpectedOperand),
        Some(left) => {
            let then = step(state);
            let further = step(then);
            let equal = peek(tokens, further) is Equal;
            match peek(tokens, then) {
                TokenView::Not => if equal {
                    compared(tokens, step(further), Operator::NotEqual, left, fuel)
                } else {
                    Err(ParseError::UnexpectedToken)
                },
                TokenView::Equality => compared(tokens, further, Operator::Equality, left, fuel),
                TokenView::LArrow => if equal {
                    compared(tokens, step(further), Operator::LesserEqual, left, fuel)
                } else {
                    compared(tokens, further, Operator::Lesser, left, fuel)
                },
                TokenView::RArrow => if equal {
                    compared(tokens, step(further), Operator::GreaterEqual, left, fuel)
                } else {
                    compared(tokens, further, Operator::Greater, left, fuel)
                },
                _ => Ok((left, then)),
            }
        },
    }
}

/// What follows the body of a conditional: nothing, `else { ... }`, or
/// `else` and another conditional, which is then the only statement of the
/// second branch.
pub open spec fn otherwise(tokens: Seq<TokenView>, state: ParseState, fuel: nat) -> Parsed<
    Seq<ExprView>,
>
    decreases fuel, 0nat,
{
    if fuel == 0 {
        Err(ParseError::TooDeep)
    } else {
        let fuel = (fuel - 1) as nat;
        if peek(tokens, state) is Else {
            let then = step(state);
            if peek(tokens, then) is If {
                match conditional(tokens, then, fuel) {
                    Ok((nested, after)) => Ok((seq![nested], after)),
                    Err(error) => Err(error),
                }
            } else {
                block(tokens, then, fuel)
            }
        } else {
            Ok((Seq::empty(), state))
        }
    }
}

/// `if condition { ... }` with what follows it.
pub open spec fn conditional(tokens: Seq<TokenView>, state: ParseState, fuel: nat) -> Parsed<
    ExprView,
>
    decreases fuel, 0nat,
{
    if fuel == 0 {
        Err(ParseError::TooDeep)
    } else {
        let fuel = (fuel - 1) as nat;
        match comparison(tokens, step(state), fuel) {
            Ok((condition, then)) => match block(tokens, then, fuel) {
                Ok((body, further)) => match otherwise(tokens, further, fuel) {
                    Ok((second, after)) => Ok(
                        (ExprView::If(Box::new(condition), body, second), after),
                    ),
                    Err(error) => Err(error),
                },
                Err(error) => Err(error),
            },
            Err(error) => Err(error),
        }
    }
}

/// `return value`, with the semicolon after it if there is one.
pub open spec fn return_value(tokens: Seq<TokenView>, state: ParseState, fuel: nat) -> Parsed<
    ExprView,
>
    decreases fuel, 0nat,
{
    if fuel == 0 {
        Err(ParseError::TooDeep)
    } else {
        match expression(tokens, step(state), (fuel - 1) as nat) {
            Ok((value, after)) => Ok(
                (ExprView::Return(Box::new(value)), skip_semicolon(tokens, after)),
            ),
            Err(error) => Err(error),
        }
    }
}

/// The arguments of a call, up to the closing parenthesis, a semicolon, a
/// plus sign or the end. Commas are passed over, and an opening parenthesis
/// begins a function without a name.
pub open spec fn call_args(
    tokens: Seq<TokenView>,
    state: ParseState,
    args: Seq<ExprView>,
    fuel: nat,
) -> Parsed<Seq<ExprView>>
    decreases fuel, 0nat,
{
    if fuel == 0 {
        Err(ParseError::TooDeep)
    } else {
        let fuel = (fuel - 1) as nat;
        match peek(tokens, state) {
            TokenView::RParen | TokenView::Semicolon => Ok((args, step(state))),
            TokenView::Plus | TokenView::EOF => Ok((args, state)),
            TokenView::Comma => call_args(tokens, step(state), args, fuel),
            TokenView::LParen => match function(tokens, state, true, fuel) {
                Ok((arg, after)) => call_args(tokens, after, args.push(arg), fuel),
                Err(error) => Err(error),
            },
            _ => match expression(tokens, state, fuel) {
                Ok((arg, after)) => call_args(tokens, after, args.push(arg), fuel),
                Err(error) => Err(error),
            },
        }
    }
}

/// `name(args)`, with the semicolon after it if there is one.
pub open spec fn call(tokens: Seq<TokenView>, state: ParseState, fuel: nat) -> Parsed<ExprView>
    decreases fuel, 0nat,
{
    if fuel == 0 {
        Err(ParseError::TooDeep)
    } else {
        match peek(tokens, state) {
            TokenView::Identifier(name) => match call_args(
                tokens,
                step(step(state)),
                Seq::empty(),
                (fuel - 1) as nat,
            ) {
                Ok((args, after)) => Ok(
                    (
                        ExprView::CallFunc(Box::new(ExprView::Identifier(name)), args),
                        skip_semicolon(tokens, after),
                    ),
                ),
                Err(error) => Err(error),
            },
            _ => Err(ParseError::ExpectedIdentifier),
        }
    }
}

/// The parameters and the body of a function of a name, from the opening
/// parenthesis on.
pub open spec fn function_of(
    tokens: Seq<TokenView>,
    state: ParseState,
    name: Seq<char>,
    fuel: nat,
) -> Parsed<ExprView>
    decreases fuel, 0nat,
{
    if fuel == 0 {
        Err(ParseError::TooDeep)
    } else {
        let fuel = (fuel - 1) as nat;
        match params(tokens, step(state), Seq::empty(), fuel) {
            Ok((names, then)) => match block(tokens, then, fuel) {
                Ok((body, after)) => Ok(
                    (ExprView::DecFunc(name, parameters(names), body, MType::Undefined), after),
                ),
                Err(error) => Err(error),
            },
            Err(error) => Err(error),
        }
    }
}

/// A function declaration: `fn name(params) { ... }`, or `(params) { ... }`
/// for a function without a name.
pub open spec fn function(
    tokens: Seq<TokenView>,
    state: ParseState,
    nameless: bool,
    fuel: nat,
) -> Parsed<ExprView>
    decreases fuel, 1nat,
{
    if nameless {
        function_of(tokens, state, anonymous(), fuel)
    } else {
        let named = step(state);
        match peek(tokens, named) {
            TokenView::Identifier(name) => function_of(tokens, step(named), name, fuel),
            _ => Err(ParseError::ExpectedIdentifier),
        }
    }
}

/// The statements of a block, up to the closing brace. Opening braces are
/// passed over.
pub open spec fn block_items(
    tokens: Seq<TokenView>,
    state: ParseState,
    items: Seq<ExprView>,
    fuel: nat,
) -> Parsed<Seq<ExprView>>
    decreases fuel, 0nat,
{
    if fuel == 0 {
        Err(ParseError::TooDeep)
    } else {
        let fuel = (fuel - 1) as nat;
        match peek(tokens, state) {
            TokenView::LCurly => block_items(tokens, step(state), items, fuel),
            TokenView::RCurly => Ok((items, step(state))),
            _ => match statement(tokens, state, fuel) {
                Ok((item, after)) => block_items(tokens, after, items.push(item), fuel),
                Err(error) => Err(error),
            },
        }
    }
}

/// A block of statements, with the semicolon after it if there is one.
pub open spec fn block(tokens: Seq<TokenView>, state: ParseState, fuel: nat) -> Parsed<
    Seq<ExprView>,
>
    decreases fuel, 1nat,
{
    match block_items(tokens, state, Seq::empty(), fuel) {
        Ok((items, after)) => Ok((items, skip_semicolon(tokens, after))),
        Err(error) => Err(error),
    }
}

/// What an identifier begins: the empty statement, a call, an array access,
/// a shorthand assignment, a property access, or the identifier alone.
pub open spec fn identifier(tokens: Seq<TokenView>, state: ParseState, fuel: nat) -> Parsed<
    ExprView,
>
    decreases fuel, 0nat,
{
    if fuel == 0 {
        Err(ParseError::TooDeep)
    } else {
        let fuel = (fuel - 1) as nat;
        match peek(tokens, state) {
            TokenView::Identifier(name) => {
                let then = step(state);
                if name == pass_word() {
                    Ok((ExprView::Pass, skip_semicolon(tokens, then)))
                } else {
                    match peek(tokens, then) {
                        TokenView::LParen => call(tokens, state, fuel),
                        TokenView::LBracket => array_access(tokens, state, fuel),
                        TokenView::Semicolon => Ok(
                            (ExprView::Identifier(name), step(then)),
                        ),
                        TokenView::Plus | TokenView::Minus => if peek(
                            tokens,
                            step(then),
                        ) is Equal {
                            shorthand(tokens, state, fuel)
                        } else {
                            Ok((ExprView::Identifier(name), then))
                        },
                        TokenView::Dot => property_access(tokens, state, fuel),
                        _ => Ok((ExprView::Identifier(name), then)),
                    }
                }
            },
            _ => Err(ParseError::ExpectedIdentifier),
        }
    }
}

/// `name[index]`, with the semicolon after it if there is one.
pub open spec fn array_access(tokens: Seq<TokenView>, state: ParseState, fuel: nat) -> Parsed<
    ExprView,
>
    decreases fuel, 0nat,
{
    if fuel == 0 {
        Err(ParseError::TooDeep)
    } else {
        match peek(tokens, state) {
            TokenView::Identifier(name) => match expression(
                tokens,
                step(step(state)),
                (fuel - 1) as nat,
            ) {
                Ok((index, after)) => Ok(
                    (
                        ExprView::ArrayAccess(name, Box::new(index)),
                        skip_semicolon(tokens, step(after)),
                    ),
                ),
                Err(error) => Err(error),
            },
            _ => Err(ParseError::ExpectedIdentifier),
        }
    }
}

/// The annotation of a declared name, from the token after the name on: the
/// type after a colon, or none.
pub open spec fn annotation(tokens: Seq<TokenView>, state: ParseState) -> Parsed<MType> {
    if peek(tokens, state) is Colon {
        let typed = step(state);
        match peek(tokens, typed) {
            TokenView::Identifier(name) => match type_named(name) {
                Some(annotation) => Ok((annotation, step(typed))),
                None => Err(ParseError::UnknownType),
            },
            _ => Ok((MType::Undefined, step(typed))),
        }
    } else {
        Ok((MType::Undefined, state))
    }
}

/// The value of a declaration: a statement, and the sum of it and an
/// expression where a plus sign follows it.
pub open spec fn declared_value(tokens: Seq<TokenView>, state: ParseState, fuel: nat) -> Parsed<
    ExprView,
>
    decreases fuel, 0nat,
{
    if fuel == 0 {
        Err(ParseError::TooDeep)
    } else {
        let fuel = (fuel - 1) as nat;
        match statement(tokens, state, fuel) {
            Ok((value, then)) => if peek(tokens, then) is Plus {
                match expression(tokens, step(then), fuel) {
                    Ok((more, after)) => Ok((binary(Operator::Add, value, more), after)),
                    Err(error) => Err(error),
                }
            } else {
                Ok((value, then))
            },
            Err(error) => Err(error),
        }
    }
}

/// `let name = value` or `let name: Type = value`, with the semicolon after
/// it if there is one.
pub open spec fn declaration(tokens: Seq<TokenView>, state: ParseState, fuel: nat) -> Parsed<
    ExprView,
>
    decreases fuel, 0nat,
{
    if fuel == 0 {
        Err(ParseError::TooDeep)
    } else {
        let named = step(state);
        match peek(tokens, named) {
            TokenView::Identifier(name) => match annotation(tokens, step(named)) {
                Ok((annotation, then)) => match declared_value(
                    tokens,
                    step(then),
                    (fuel - 1) as nat,
                ) {
                    Ok((value, after)) => Ok(
                        (
                            binary(
                                Operator::Declare(annotation),
                                ExprView::Identifier(name),
                                value,
                            ),
                            skip_semicolon(tokens, after),
                        ),
                    ),
                    Err(error) => Err(error),
                },
                Err(error) => Err(error),
            },
            _ => Err(ParseError::ExpectedIdentifier),
        }
    }
}

/// `= value` after a name that the top level has taken for a statement: the
/// statement is withdrawn, and the name is assigned the value. With the
/// semicolon after it if there is one.
pub open spec fn assignment(tokens: Seq<TokenView>, state: ParseState, fuel: nat) -> Parsed<
    ExprView,
>
    decreases fuel, 0nat,
{
    if fuel == 0 {
        Err(ParseError::TooDeep)
    } else if state.pos < 1 || state.done.len() == 0 {
        Err(ParseError::NothingBefore)
    } else {
        let named = ParseState { pos: state.pos - 1, done: state.done.drop_last() };
        match peek(tokens, named) {
            TokenView::Identifier(name) => match expression(
                tokens,
                step(step(named)),
                (fuel - 1) as nat,
            ) {
                Ok((value, after)) => Ok(
                    (
                        binary(Operator::Assign, ExprView::Identifier(name), value),
                        skip_semicolon(tokens, after),
                    ),
                ),
                Err(error) => Err(error),
            },
            _ => Err(ParseError::ExpectedIdentifier),
        }
    }
}

/// `name += value` or `name -= value`: the name is assigned the sum or the
/// difference. With the semicolon after it if there is one.
pub open spec fn shorthand(tokens: Seq<TokenView>, state: ParseState, fuel: nat) -> Parsed<
    ExprView,
>
    decreases fuel, 0nat,
{
    if fuel == 0 {
        Err(ParseError::TooDeep)
    } else {
        match peek(tokens, state) {
            TokenView::Identifier(name) => {
                let signed = step(state);
                let operator = match peek(tokens, signed) {
                    TokenView::Plus => Some(Operator::Add),
                    TokenView::Minus => Some(Operator::Subtract),
                    _ => None,
                };
                match operator {
                    Some(operator) => match expression(
                        tokens,
                        step(step(signed)),
                        (fuel - 1) as nat,
                    ) {
                        Ok((value, after)) => Ok(
                            (
                                binary(
                                    Operator::Assign,
                                    ExprView::Identifier(name),
                                    binary(operator, ExprView::Identifier(name), value),
                                ),
                                skip_semicolon(tokens, after),
                            ),
                        ),
                        Err(error) => Err(error),
                    },
                    None => Err(ParseError::UnexpectedToken),
                }
            },
            _ => Err(ParseError::ExpectedIdentifier),
        }
    }
}

/// What an expression begins with: a string, what an identifier begins, a
/// number, an array, or the shorthand assignment of the name before a plus
/// or minus sign.
pub open spec fn primary(tokens: Seq<TokenView>, state: ParseState, fuel: nat) -> Parsed<
    ExprView,
>
    decreases fuel, 0nat,
{
    if fuel == 0 {
        Err(ParseError::TooDeep)
    } else {
        let fuel = (fuel - 1) as nat;
        match peek(tokens, state) {
            TokenView::String(_) => string(tokens, state),
            TokenView::Identifier(_) => identifier(tokens, state, fuel),
            TokenView::Number(_) => number(tokens, state),
            TokenView::LBracket => array(tokens, state, fuel),
            TokenView::Plus | TokenView::Minus => if state.pos < 1 {
                Err(ParseError::NothingBefore)
            } else {
                shorthand(tokens, back(state), fuel)
            },
            _ => Err(ParseError::ExpectedOperand),
        }
    }
}

/// The operations that follow the first operand of an expression, each with
/// a statement as its right side, from left to right.
pub open spec fn operations(
    tokens: Seq<TokenView>,
    state: ParseState,
    left: ExprView,
    fuel: nat,
) -> Parsed<ExprView>
    decreases fuel, 0nat,
{
    if fuel == 0 {
        Err(ParseError::TooDeep)
    } else {
        let fuel = (fuel - 1) as nat;
        match arithmetic(peek(tokens, state)) {
            Some(operator) => match statement(tokens, step(state), fuel) {
                Ok((right, after)) => operations(
                    tokens,
                    after,
                    binary(operator, left, right),
                    fuel,
                ),
                Err(error) => Err(error),
            },
            None => Ok((left, state)),
        }
    }
}

/// An expression: an operand and the operations that follow it, with the
/// semicolon after it if there is one. A closing bracket alone is the empty
/// array.
pub open spec fn expression(tokens: Seq<TokenView>, state: ParseState, fuel: nat) -> Parsed<
    ExprView,
>
    decreases fuel, 0nat,
{
    if fuel == 0 {
        Err(ParseError::TooDeep)
    } else if peek(tokens, state) is RBracket {
        Ok((ExprView::Array(Seq::empty()), step(state)))
    } else {
        let fuel = (fuel - 1) as nat;
        match primary(tokens, state, fuel) {
            Ok((first, then)) => match operations(tokens, then, first, fuel) {
                Ok((whole, after)) => Ok((whole, skip_semicolon(tokens, after))),
                Err(error) => Err(error),
            },
            Err(error) => Err(error),
        }
    }
}

/// The elements of an array, up to the closing bracket or a semicolon, or
/// to an opening brace, which is left in place. Commas are passed over.
pub open spec fn array_items(
    tokens: Seq<TokenView>,
    state: ParseState,
    items: Seq<ExprView>,
    fuel: nat,
) -> Parsed<Seq<ExprView>>
    decreases fuel, 0nat,
{
    if fuel == 0 {
        Err(ParseError::TooDeep)
    } else {
        let fuel = (fuel - 1) as nat;
        match peek(tokens, state) {
            TokenView::RBracket | TokenView::Semicolon => Ok((items, step(state))),
            TokenView::LCurly => Ok((items, state)),
            TokenView::Comma => array_items(tokens, step(state), items, fuel),
            _ => match expression(tokens, state, fuel) {
                Ok((item, after)) => array_items(tokens, after, items.push(item), fuel),
                Err(error) => Err(error),
            },
        }
    }
}

/// `[a, b, ...]`.
pub open spec fn array(tokens: Seq<TokenView>, state: ParseState, fuel: nat) -> Parsed<ExprView>
    decreases fuel, 0nat,
{
    if fuel == 0 {
        Err(ParseError::TooDeep)
    } else {
        match array_items(tokens, step(state), Seq::empty(), (fuel - 1) as nat) {
            Ok((items, after)) => Ok((ExprView::Array(items), after)),
            Err(error) => Err(error),
        }
    }
}

/// `object.member`, from the object on.
pub open spec fn property_access(tokens: Seq<TokenView>, state: ParseState, fuel: nat) -> Parsed<
    ExprView,
>
    decreases fuel, 0nat,
{
    if fuel == 0 {
        Err(ParseError::TooDeep)
    } else {
        match peek(tokens, state) {
            TokenView::Identifier(name) => match expression(
                tokens,
                step(step(state)),
                (fuel - 1) as nat,
            ) {
                Ok((member, after)) => Ok(
                    (
                        ExprView::PropertyAccess(
                            Box::new(ExprView::Identifier(name)),
                            Box::new(member),
                        ),
                        after,
                    ),
                ),
                Err(error) => Err(error),
            },
            _ => Err(ParseError::ExpectedIdentifier),
        }
    }
}

/// The statements of a whole run of tokens: statement after statement from
/// the state on, each joining those that the top level has parsed, until the
/// position is at the end.
pub open spec fn program(tokens: Seq<TokenView>, state: ParseState, fuel: nat) -> Result<
    ParseState,
    ParseError,
>
    decreases fuel, 0nat,
{
    if state.pos >= tokens.len() {
        Ok(state)
    } else if fuel == 0 {
        Err(ParseError::TooDeep)
    } else {
        let fuel = (fuel - 1) as nat;
        match statement(tokens, state, fuel) {
            Ok((item, after)) => program(
                tokens,
                ParseState { done: after.done.push(item), ..after },
                fuel,
            ),
            Err(error) => Err(error),
        }
    }
}

/// The budget with which a parser starts.
pub open spec fn budget() -> nat {
    u64::MAX as nat
}

} // verus!
