//! The parser moves on: whatever it parses takes it further along the run
//! of tokens.

use vstd::prelude::*;
use crate::enums::{ExprView, Operator, TokenView};
use crate::grammar::{
    annotation, anonymous, arithmetic, array, array_access, array_items, assignment, back, binary,
    block, block_items, call, call_args, class, compared, comparison, conditional, declaration,
    declared_value, expression, for_loop, function, function_of, identifier, operand, operations,
    otherwise, params, pass_word, peek, primary, property_access, return_value, shorthand,
    statement, step, while_loop, ParseState, Parsed,
};

verus! {

/// Whether a state's position counts tokens passed: none of them, or more.
pub open spec fn placed(state: ParseState) -> bool {
    0 <= state.pos
}

/// Whether what was parsed, if anything was, left the parser at least `by`
/// tokens further on.
pub open spec fn moved<T>(
    tokens: Seq<TokenView>,
    state: ParseState,
    parsed: Parsed<T>,
    by: int,
) -> bool {
    parsed matches Ok((_, after)) ==> placed(after) && after.pos >= state.pos + by
}

/// What `params` parses moves the parser on.
pub proof fn moves_params(
    tokens: Seq<TokenView>,
    state: ParseState,
    names: Seq<Seq<char>>,
    fuel: nat,
)
    requires
        placed(state),
    ensures
        moved(tokens, state, params(tokens, state, names, fuel), 1),
    decreases fuel, 0nat,
{
    if fuel > 0 {
        let less = (fuel - 1) as nat;
        match peek(tokens, state) {
            TokenView::LParen | TokenView::Comma => {
                moves_params(tokens, step(state), names, less);
            },
            TokenView::Identifier(name) => {
                moves_params(tokens, step(state), names.push(name), less);
            },
            _ => {},
        }
    }
}

/// What `statement` parses moves the parser on.
pub proof fn moves_statement(tokens: Seq<TokenView>, state: ParseState, fuel: nat)
    requires
        placed(state),
    ensures
        moved(tokens, state, statement(tokens, state, fuel), 1),
    decreases fuel, 0nat,
{
    if fuel > 0 {
        let less = (fuel - 1) as nat;
        match peek(tokens, state) {
            TokenView::Plus
            | TokenView::Minus
            | TokenView::Star
            | TokenView::Slash
            | TokenView::RParen
            | TokenView::LBracket
            | TokenView::Comma
            | TokenView::Semicolon => moves_expression(tokens, state, less),
            TokenView::Not
            | TokenView::LArrow
            | TokenView::RArrow
            | TokenView::Equality => moves_comparison(tokens, state, less),
            TokenView::Equal => moves_assignment(tokens, state, less),
            TokenView::Dot => moves_property_access(tokens, step(state), less),
            TokenView::Let => moves_declaration(tokens, state, less),
            TokenView::Identifier(_) => moves_identifier(tokens, state, less),
            TokenView::Func => moves_function(tokens, state, false, less),
            TokenView::If => moves_conditional(tokens, state, less),
            TokenView::While => moves_while_loop(tokens, state, less),
            TokenView::For => moves_for_loop(tokens, state, less),
            TokenView::Return => moves_return_value(tokens, state, less),
            TokenView::Class => moves_class(tokens, state, less),
            TokenView::LParen => moves_function(tokens, state, true, less),
            _ => {},
        }
    }
}

/// What `class` parses moves the parser on.
pub proof fn moves_class(tokens: Seq<TokenView>, state: ParseState, fuel: nat)
    requires
        placed(state),
    ensures
        moved(tokens, state, class(tokens, state, fuel), 1),
    decreases fuel, 0nat,
{
    if fuel > 0 {
        let named = step(state);
        if peek(tokens, named) is Identifier {
            moves_block(tokens, step(named), (fuel - 1) as nat);
        }
    }
}

/// What `while_loop` parses moves the parser on.
pub proof fn moves_while_loop(tokens: Seq<TokenView>, state: ParseState, fuel: nat)
    requires
        placed(state),
    ensures
        moved(tokens, state, while_loop(tokens, state, fuel), 1),
    decreases fuel, 0nat,
{
    if fuel > 0 {
        let less = (fuel - 1) as nat;
        moves_comparison(tokens, step(state), less);
        match comparison(tokens, step(state), less) {
            Ok((_, then)) => moves_block(tokens, then, less),
            Err(_) => {},
        }
    }
}

/// What `for_loop` parses moves the parser on.
pub proof fn moves_for_loop(tokens: Seq<TokenView>, state: ParseState, fuel: nat)
    requires
        placed(state),
    ensures
        moved(tokens, state, for_loop(tokens, state, fuel), 1),
    decreases fuel, 0nat,
{
    if fuel > 0 {
        let less = (fuel - 1) as nat;
        let named = step(state);
        if peek(tokens, named) is Identifier {
            let start = step(step(named));
            moves_statement(tokens, start, less);
            match statement(tokens, start, less) {
                Ok((_, then)) => moves_block(tokens, then, less),
                Err(_) => {},
            }
        }
    }
}

/// What `compared` parses moves the parser on.
pub proof fn moves_compared(
    tokens: Seq<TokenView>,
    state: ParseState,
    operator: Operator,
    left: ExprView,
    fuel: nat,
)
    requires
        placed(state),
    ensures
        moved(tokens, state, compared(tokens, state, operator, left, fuel), 1),
    decreases fuel, 0nat,
{
    if fuel > 0 {
        moves_expression(tokens, state, (fuel - 1) as nat);
    }
}

/// What `comparison` parses moves the parser on.
pub proof fn moves_comparison(tokens: Seq<TokenView>, state: ParseState, fuel: nat)
    requires
        placed(state),
    ensures
        moved(tokens, state, comparison(tokens, state, fuel), 1),
    decreases fuel, 1nat,
{
    match operand(peek(tokens, state)) {
        None => {},
        Some(left) => {
            let then = step(state);
            let further = step(then);
            let equal = peek(tokens, further) is Equal;
            let beyond = step(further);
            match peek(tokens, then) {
                TokenView::Not => {
                    if equal {
                        moves_compared(tokens, beyond, Operator::NotEqual, left, fuel);
                    }
                },
                TokenView::Equality => {
                    moves_compared(tokens, further, Operator::Equality, left, fuel);
                },
                TokenView::LArrow => {
                    if equal {
                        moves_compared(tokens, beyond, Operator::LesserEqual, left, fuel);
                    } else {
                        moves_compared(tokens, further, Operator::Lesser, left, fuel);
                    }
                },
                TokenView::RArrow => {
                    if equal {
                        moves_compared(tokens, beyond, Operator::GreaterEqual, left, fuel);
                    } else {
                        moves_compared(tokens, further, Operator::Greater, left, fuel);
                    }
                },
                _ => {},
            }
        },
    }
}

/// What `otherwise` parses does not move the parser back.
pub proof fn moves_otherwise(tokens: Seq<TokenView>, state: ParseState, fuel: nat)
    requires
        placed(state),
    ensures
        moved(tokens, state, otherwise(tokens, state, fuel), 0),
    decreases fuel, 0nat,
{
    if fuel > 0 {
        let less = (fuel - 1) as nat;
        if peek(tokens, state) is Else {
            let then = step(state);
            if peek(tokens, then) is If {
                moves_conditional(tokens, then, less);
            } else {
                moves_block(tokens, then, less);
            }
        }
    }
}

/// What `conditional` parses moves the parser on.
pub proof fn moves_conditional(tokens: Seq<TokenView>, state: ParseState, fuel: nat)
    requires
        placed(state),
    ensures
        moved(tokens, state, conditional(tokens, state, fuel), 1),
    decreases fuel, 0nat,
{
    if fuel > 0 {
        let less = (fuel - 1) as nat;
        moves_comparison(tokens, step(state), less);
        match comparison(tokens, step(state), less) {
            Ok((_, then)) => {
                moves_block(tokens, then, less);
                match block(tokens, then, less) {
                    Ok((_, further)) => moves_otherwise(tokens, further, less),
                    Err(_) => {},
                }
            },
            Err(_) => {},
        }
    }
}

/// What `return_value` parses moves the parser on.
pub proof fn moves_return_value(tokens: Seq<TokenView>, state: ParseState, fuel: nat)
    requires
        placed(state),
    ensures
        moved(tokens, state, return_value(tokens, state, fuel), 1),
    decreases fuel, 0nat,
{
    if fuel > 0 {
        moves_expression(tokens, step(state), (fuel - 1) as nat);
    }
}

/// What `call_args` parses does not move the parser back.
pub proof fn moves_call_args(
    tokens: Seq<TokenView>,
    state: ParseState,
    args: Seq<ExprView>,
    fuel: nat,
)
    requires
        placed(state),
    ensures
        moved(tokens, state, call_args(tokens, state, args, fuel), 0),
    decreases fuel, 0nat,
{
    if fuel > 0 {
        let less = (fuel - 1) as nat;
        match peek(tokens, state) {
            TokenView::RParen | TokenView::Semicolon | TokenView::Plus | TokenView::EOF => {},
            TokenView::Comma => moves_call_args(tokens, step(state), args, less),
            TokenView::LParen => {
                moves_function(tokens, state, true, less);
                match function(tokens, state, true, less) {
                    Ok((arg, after)) => moves_call_args(tokens, after, args.push(arg), less),
                    Err(_) => {},
                }
            },
            _ => {
                moves_expression(tokens, state, less);
                match expression(tokens, state, less) {
                    Ok((arg, after)) => moves_call_args(tokens, after, args.push(arg), less),
                    Err(_) => {},
                }
            },
        }
    }
}

/// What `call` parses moves the parser on.
pub proof fn moves_call(tokens: Seq<TokenView>, state: ParseState, fuel: nat)
    requires
        placed(state),
    ensures
        moved(tokens, state, call(tokens, state, fuel), 1),
    decreases fuel, 0nat,
{
    if fuel > 0 {
        if peek(tokens, state) is Identifier {
            moves_call_args(
                tokens,
                step(step(state)),
                Seq::empty(),
                (fuel - 1) as nat,
            );
        }
    }
}

/// What `function_of` parses moves the parser on.
pub proof fn moves_function_of(
    tokens: Seq<TokenView>,
    state: ParseState,
    name: Seq<char>,
    fuel: nat,
)
    requires
        placed(state),
    ensures
        moved(tokens, state, function_of(tokens, state, name, fuel), 1),
    decreases fuel, 0nat,
{
    if fuel > 0 {
        let less = (fuel - 1) as nat;
        moves_params(tokens, step(state), Seq::empty(), less);
        match params(tokens, step(state), Seq::empty(), less) {
            Ok((_, then)) => moves_block(tokens, then, less),
            Err(_) => {},
        }
    }
}

/// What `function` parses moves the parser on.
pub proof fn moves_function(tokens: Seq<TokenView>, state: ParseState, nameless: bool, fuel: nat)
    requires
        placed(state),
    ensures
        moved(tokens, state, function(tokens, state, nameless, fuel), 1),
    decreases fuel, 1nat,
{
    if nameless {
        moves_function_of(tokens, state, anonymous(), fuel);
    } else {
        let named = step(state);
        match peek(tokens, named) {
            TokenView::Identifier(name) => {
                moves_function_of(tokens, step(named), name, fuel);
            },
            _ => {},
        }
    }
}

/// What `block_items` parses moves the parser on.
pub proof fn moves_block_items(
    tokens: Seq<TokenView>,
    state: ParseState,
    items: Seq<ExprView>,
    fuel: nat,
)
    requires
        placed(state),
    ensures
        moved(tokens, state, block_items(tokens, state, items, fuel), 1),
    decreases fuel, 0nat,
{
    if fuel > 0 {
        let less = (fuel - 1) as nat;
        match peek(tokens, state) {
            TokenView::LCurly => moves_block_items(tokens, step(state), items, less),
            TokenView::RCurly => {},
            _ => {
                moves_statement(tokens, state, less);
                match statement(tokens, state, less) {
                    Ok((item, after)) => moves_block_items(tokens, after, items.push(item), less),
                    Err(_) => {},
                }
            },
        }
    }
}

/// What `block` parses moves the parser on.
pub proof fn moves_block(tokens: Seq<TokenView>, state: ParseState, fuel: nat)
    requires
        placed(state),
    ensures
        moved(tokens, state, block(tokens, state, fuel), 1),
    decreases fuel, 1nat,
{
    moves_block_items(tokens, state, Seq::empty(), fuel);
}

/// What `identifier` parses moves the parser on.
pub proof fn moves_identifier(tokens: Seq<TokenView>, state: ParseState, fuel: nat)
    requires
        placed(state),
    ensures
        moved(tokens, state, identifier(tokens, state, fuel), 1),
    decreases fuel, 0nat,
{
    if fuel > 0 {
        let less = (fuel - 1) as nat;
        match peek(tokens, state) {
            TokenView::Identifier(name) => {
                let then = step(state);
                if name != pass_word() {
                    match peek(tokens, then) {
                        TokenView::LParen => moves_call(tokens, state, less),
                        TokenView::LBracket => moves_array_access(tokens, state, less),
                        TokenView::Plus | TokenView::Minus => {
                            if peek(tokens, step(then)) is Equal {
                                moves_shorthand(tokens, state, less);
                            }
                        },
                        TokenView::Dot => moves_property_access(tokens, state, less),
                        _ => {},
                    }
                }
            },
            _ => {},
        }
    }
}

/// What `array_access` parses moves the parser on.
pub proof fn moves_array_access(tokens: Seq<TokenView>, state: ParseState, fuel: nat)
    requires
        placed(state),
    ensures
        moved(tokens, state, array_access(tokens, state, fuel), 1),
    decreases fuel, 0nat,
{
    if fuel > 0 {
        if peek(tokens, state) is Identifier {
            moves_expression(tokens, step(step(state)), (fuel - 1) as nat);
        }
    }
}

/// What `declared_value` parses moves the parser on.
pub proof fn moves_declared_value(tokens: Seq<TokenView>, state: ParseState, fuel: nat)
    requires
        placed(state),
    ensures
        moved(tokens, state, declared_value(tokens, state, fuel), 1),
    decreases fuel, 0nat,
{
    if fuel > 0 {
        let less = (fuel - 1) as nat;
        moves_statement(tokens, state, less);
        match statement(tokens, state, less) {
            Ok((_, then)) => {
                if peek(tokens, then) is Plus {
                    moves_expression(tokens, step(then), less);
                }
            },
            Err(_) => {},
        }
    }
}

/// What `declaration` parses moves the parser on.
pub proof fn moves_declaration(tokens: Seq<TokenView>, state: ParseState, fuel: nat)
    requires
        placed(state),
    ensures
        moved(tokens, state, declaration(tokens, state, fuel), 1),
    decreases fuel, 0nat,
{
    if fuel > 0 {
        let named = step(state);
        if peek(tokens, named) is Identifier {
            match annotation(tokens, step(named)) {
                Ok((_, then)) => moves_declared_value(
                    tokens,
                    step(then),
                    (fuel - 1) as nat,
                ),
                Err(_) => {},
            }
        }
    }
}

/// What `assignment` parses moves the parser on.
pub proof fn moves_assignment(tokens: Seq<TokenView>, state: ParseState, fuel: nat)
    requires
        placed(state),
    ensures
        moved(tokens, state, assignment(tokens, state, fuel), 1),
    decreases fuel, 0nat,
{
    if fuel > 0 && !(state.pos < 1 || state.done.len() == 0) {
        let named = ParseState { pos: state.pos - 1, done: state.done.drop_last() };
        if peek(tokens, named) is Identifier {
            moves_expression(tokens, step(step(named)), (fuel - 1) as nat);
        }
    }
}

/// What `shorthand` parses moves the parser on by three tokens.
pub proof fn moves_shorthand(tokens: Seq<TokenView>, state: ParseState, fuel: nat)
    requires
        placed(state),
    ensures
        moved(tokens, state, shorthand(tokens, state, fuel), 3),
    decreases fuel, 0nat,
{
    if fuel > 0 {
        if peek(tokens, state) is Identifier {
            let signed = step(state);
            if peek(tokens, signed) is Plus || peek(tokens, signed) is Minus {
                moves_expression(
                    tokens,
                    step(step(signed)),
                    (fuel - 1) as nat,
                );
            }
        }
    }
}

/// What `primary` parses moves the parser on.
pub proof fn moves_primary(tokens: Seq<TokenView>, state: ParseState, fuel: nat)
    requires
        placed(state),
    ensures
        moved(tokens, state, primary(tokens, state, fuel), 1),
    decreases fuel, 0nat,
{
    if fuel > 0 {
        let less = (fuel - 1) as nat;
        match peek(tokens, state) {
            TokenView::Identifier(_) => moves_identifier(tokens, state, less),
            TokenView::LBracket => moves_array(tokens, state, less),
            TokenView::Plus | TokenView::Minus => {
                if state.pos >= 1 {
                    moves_shorthand(tokens, back(state), less);
                }
            },
            _ => {},
        }
    }
}

/// What `operations` parses does not move the parser back.
pub proof fn moves_operations(tokens: Seq<TokenView>, state: ParseState, left: ExprView, fuel: nat)
    requires
        placed(state),
    ensures
        moved(tokens, state, operations(tokens, state, left, fuel), 0),
    decreases fuel, 0nat,
{
    if fuel > 0 {
        let less = (fuel - 1) as nat;
        match arithmetic(peek(tokens, state)) {
            Some(operator) => {
                moves_statement(tokens, step(state), less);
                match statement(tokens, step(state), less) {
                    Ok((right, after)) => moves_operations(
                        tokens,
                        after,
                        binary(operator, left, right),
                        less,
                    ),
                    Err(_) => {},
                }
            },
            None => {},
        }
    }
}

/// What `expression` parses moves the parser on.
pub proof fn moves_expression(tokens: Seq<TokenView>, state: ParseState, fuel: nat)
    requires
        placed(state),
    ensures
        moved(tokens, state, expression(tokens, state, fuel), 1),
    decreases fuel, 0nat,
{
    if fuel > 0 && !(peek(tokens, state) is RBracket) {
        let less = (fuel - 1) as nat;
        moves_primary(tokens, state, less);
        match primary(tokens, state, less) {
            Ok((first, then)) => moves_operations(tokens, then, first, less),
            Err(_) => {},
        }
    }
}

/// What `array_items` parses moves the parser on, unless it ends at once
/// before an opening brace.
pub proof fn moves_array_items(
    tokens: Seq<TokenView>,
    state: ParseState,
    items: Seq<ExprView>,
    fuel: nat,
)
    requires
        placed(state),
    ensures
        moved(
            tokens,
            state,
            array_items(tokens, state, items, fuel),
            if peek(tokens, state) is LCurly {
                0int
            } else {
                1int
            },
        ),
    decreases fuel, 0nat,
{
    if fuel > 0 {
        let less = (fuel - 1) as nat;
        match peek(tokens, state) {
            TokenView::RBracket | TokenView::Semicolon | TokenView::LCurly => {},
            TokenView::Comma => moves_array_items(tokens, step(state), items, less),
            _ => {
                moves_expression(tokens, state, less);
                match expression(tokens, state, less) {
                    Ok((item, after)) => moves_array_items(tokens, after, items.push(item), less),
                    Err(_) => {},
                }
            },
        }
    }
}

/// What `array` parses moves the parser on.
pub proof fn moves_array(tokens: Seq<TokenView>, state: ParseState, fuel: nat)
    requires
        placed(state),
    ensures
        moved(tokens, state, array(tokens, state, fuel), 1),
    decreases fuel, 0nat,
{
    if fuel > 0 {
        moves_array_items(tokens, step(state), Seq::empty(), (fuel - 1) as nat);
    }
}

/// What `property_access` parses moves the parser on.
pub proof fn moves_property_access(tokens: Seq<TokenView>, state: ParseState, fuel: nat)
    requires
        placed(state),
    ensures
        moved(tokens, state, property_access(tokens, state, fuel), 1),
    decreases fuel, 0nat,
{
    if fuel > 0 {
        if peek(tokens, state) is Identifier {
            moves_expression(tokens, step(step(state)), (fuel - 1) as nat);
        }
    }
}

} // verus!
