//! The budget of the parser only ever ends a parse, and the largest budget
//! never does: a parse that does not end with `TooDeep` within a budget
//! comes to the same result within every larger one, and a budget of 64 for
//! each token suffices.

use vstd::prelude::*;
use crate::enums::{ExprView, Operator, TokenView};
use crate::grammar::{
    annotation, anonymous, arithmetic, array, array_access, array_items, assignment, back, binary,
    block, block_items, budget, call, call_args, class, compared, comparison, conditional,
    declaration, declared_value, expression, for_loop, function, function_of, identifier,
    operand, operations, otherwise, params, pass_word, peek, primary, program, property_access,
    return_value, shorthand, statement, step, while_loop, ParseError, ParseState, Parsed,
};
use crate::progress::{
    placed, moves_block, moves_comparison, moves_expression, moves_function, moves_params,
    moves_primary, moves_statement,
};

verus! {

/// Whether a parse ended because the budget ran out.
pub open spec fn starved<T>(parsed: Parsed<T>) -> bool {
    parsed matches Err(ParseError::TooDeep)
}

/// `params` gives within a larger budget what it gives within a budget in
/// which it does not starve.
proof fn budget_params(
    tokens: Seq<TokenView>,
    state: ParseState,
    names: Seq<Seq<char>>,
    fuel: nat,
    more: nat,
)
    requires
        fuel <= more,
        !starved(params(tokens, state, names, fuel)),
    ensures
        params(tokens, state, names, more) == params(tokens, state, names, fuel),
    decreases fuel, 0nat,
{
    if fuel > 0 {
        let less = (fuel - 1) as nat;
        let most = (more - 1) as nat;
        match peek(tokens, state) {
            TokenView::LParen | TokenView::Comma => {
                budget_params(tokens, step(state), names, less, most);
            },
            TokenView::Identifier(name) => {
                budget_params(tokens, step(state), names.push(name), less, most);
            },
            _ => {},
        }
    }
}

/// `statement` gives within a larger budget what it gives within a budget in
/// which it does not starve.
proof fn budget_statement(tokens: Seq<TokenView>, state: ParseState, fuel: nat, more: nat)
    requires
        fuel <= more,
        !starved(statement(tokens, state, fuel)),
    ensures
        statement(tokens, state, more) == statement(tokens, state, fuel),
    decreases fuel, 0nat,
{
    if fuel > 0 {
        let less = (fuel - 1) as nat;
        let most = (more - 1) as nat;
        match peek(tokens, state) {
            TokenView::Plus
            | TokenView::Minus
            | TokenView::Star
            | TokenView::Slash
            | TokenView::RParen
            | TokenView::LBracket
            | TokenView::Comma
            | TokenView::Semicolon => budget_expression(tokens, state, less, most),
            TokenView::Not
            | TokenView::LArrow
            | TokenView::RArrow
            | TokenView::Equality => budget_comparison(tokens, state, less, most),
            TokenView::Equal => budget_assignment(tokens, state, less, most),
            TokenView::Dot => budget_property_access(tokens, step(state), less, most),
            TokenView::Let => budget_declaration(tokens, state, less, most),
            TokenView::Identifier(_) => budget_identifier(tokens, state, less, most),
            TokenView::Func => budget_function(tokens, state, false, less, most),
            TokenView::If => budget_conditional(tokens, state, less, most),
            TokenView::While => budget_while_loop(tokens, state, less, most),
            TokenView::For => budget_for_loop(tokens, state, less, most),
            TokenView::Return => budget_return_value(tokens, state, less, most),
            TokenView::Class => budget_class(tokens, state, less, most),
            TokenView::LParen => budget_function(tokens, state, true, less, most),
            _ => {},
        }
    }
}

/// `class` gives within a larger budget what it gives within a budget in
/// which it does not starve.
proof fn budget_class(tokens: Seq<TokenView>, state: ParseState, fuel: nat, more: nat)
    requires
        fuel <= more,
        !starved(class(tokens, state, fuel)),
    ensures
        class(tokens, state, more) == class(tokens, state, fuel),
    decreases fuel, 0nat,
{
    if fuel > 0 {
        let named = step(state);
        if peek(tokens, named) is Identifier {
            budget_block(tokens, step(named), (fuel - 1) as nat, (more - 1) as nat);
        }
    }
}

/// `while_loop` gives within a larger budget what it gives within a budget in
/// which it does not starve.
proof fn budget_while_loop(tokens: Seq<TokenView>, state: ParseState, fuel: nat, more: nat)
    requires
        fuel <= more,
        !starved(while_loop(tokens, state, fuel)),
    ensures
        while_loop(tokens, state, more) == while_loop(tokens, state, fuel),
    decreases fuel, 0nat,
{
    if fuel > 0 {
        let less = (fuel - 1) as nat;
        let most = (more - 1) as nat;
        budget_comparison(tokens, step(state), less, most);
        match comparison(tokens, step(state), less) {
            Ok((_, then)) => budget_block(tokens, then, less, most),
            Err(_) => {},
        }
    }
}

/// `for_loop` gives within a larger budget what it gives within a budget in
/// which it does not starve.
proof fn budget_for_loop(tokens: Seq<TokenView>, state: ParseState, fuel: nat, more: nat)
    requires
        fuel <= more,
        !starved(for_loop(tokens, state, fuel)),
    ensures
        for_loop(tokens, state, more) == for_loop(tokens, state, fuel),
    decreases fuel, 0nat,
{
    if fuel > 0 {
        let less = (fuel - 1) as nat;
        let most = (more - 1) as nat;
        let named = step(state);
        if peek(tokens, named) is Identifier {
            let start = step(step(named));
            budget_statement(tokens, start, less, most);
            match statement(tokens, start, less) {
                Ok((_, then)) => budget_block(tokens, then, less, most),
                Err(_) => {},
            }
        }
    }
}

/// `compared` gives within a larger budget what it gives within a budget in
/// which it does not starve.
proof fn budget_compared(
    tokens: Seq<TokenView>,
    state: ParseState,
    operator: Operator,
    left: ExprView,
    fuel: nat,
    more: nat,
)
    requires
        fuel <= more,
        !starved(compared(tokens, state, operator, left, fuel)),
    ensures
        compared(tokens, state, operator, left, more) == compared(
            tokens,
            state,
            operator,
            left,
            fuel,
        ),
    decreases fuel, 0nat,
{
    if fuel > 0 {
        budget_expression(tokens, state, (fuel - 1) as nat, (more - 1) as nat);
    }
}

/// `comparison` gives within a larger budget what it gives within a budget in
/// which it does not starve.
proof fn budget_comparison(tokens: Seq<TokenView>, state: ParseState, fuel: nat, more: nat)
    requires
        fuel <= more,
        !starved(comparison(tokens, state, fuel)),
    ensures
        comparison(tokens, state, more) == comparison(tokens, state, fuel),
    decreases fuel, 1nat,
{
    match operand(peek(tokens, state)) {
        None => {},
        Some(left) => {
            let then = step(state);
            let further = step(then);
            let equal = peek(tokens, further) is Equal;
            let beyond = step(further);
            match peek(tokens, then) {
                TokenView::Not => {
                    if equal {
                        budget_compared(tokens, beyond, Operator::NotEqual, left, fuel, more);
                    }
                },
                TokenView::Equality => {
                    budget_compared(tokens, further, Operator::Equality, left, fuel, more);
                },
                TokenView::LArrow => {
                    if equal {
                        budget_compared(tokens, beyond, Operator::LesserEqual, left, fuel, more);
                    } else {
                        budget_compared(tokens, further, Operator::Lesser, left, fuel, more);
                    }
                },
                TokenView::RArrow => {
                    if equal {
                        budget_compared(tokens, beyond, Operator::GreaterEqual, left, fuel, more);
                    } else {
                        budget_compared(tokens, further, Operator::Greater, left, fuel, more);
                    }
                },
                _ => {},
            }
        },
    }
}

/// `otherwise` gives within a larger budget what it gives within a budget in
/// which it does not starve.
proof fn budget_otherwise(tokens: Seq<TokenView>, state: ParseState, fuel: nat, more: nat)
    requires
        fuel <= more,
        !starved(otherwise(tokens, state, fuel)),
    ensures
        otherwise(tokens, state, more) == otherwise(tokens, state, fuel),
    decreases fuel, 0nat,
{
    if fuel > 0 {
        let less = (fuel - 1) as nat;
        let most = (more - 1) as nat;
        if peek(tokens, state) is Else {
            let then = step(state);
            if peek(tokens, then) is If {
                budget_conditional(tokens, then, less, most);
            } else {
                budget_block(tokens, then, less, most);
            }
        }
    }
}

/// `conditional` gives within a larger budget what it gives within a budget in
/// which it does not starve.
proof fn budget_conditional(tokens: Seq<TokenView>, state: ParseState, fuel: nat, more: nat)
    requires
        fuel <= more,
        !starved(conditional(tokens, state, fuel)),
    ensures
        conditional(tokens, state, more) == conditional(tokens, state, fuel),
    decreases fuel, 0nat,
{
    if fuel > 0 {
        let less = (fuel - 1) as nat;
        let most = (more - 1) as nat;
        budget_comparison(tokens, step(state), less, most);
        match comparison(tokens, step(state), less) {
            Ok((_, then)) => {
                budget_block(tokens, then, less, most);
                match block(tokens, then, less) {
                    Ok((_, further)) => budget_otherwise(tokens, further, less, most),
                    Err(_) => {},
                }
            },
            Err(_) => {},
        }
    }
}

/// `return_value` gives within a larger budget what it gives within a budget in
/// which it does not starve.
proof fn budget_return_value(tokens: Seq<TokenView>, state: ParseState, fuel: nat, more: nat)
    requires
        fuel <= more,
        !starved(return_value(tokens, state, fuel)),
    ensures
        return_value(tokens, state, more) == return_value(tokens, state, fuel),
    decreases fuel, 0nat,
{
    if fuel > 0 {
        budget_expression(tokens, step(state), (fuel - 1) as nat, (more - 1) as nat);
    }
}

/// `call_args` gives within a larger budget what it gives within a budget in
/// which it does not starve.
proof fn budget_call_args(
    tokens: Seq<TokenView>,
    state: ParseState,
    args: Seq<ExprView>,
    fuel: nat,
    more: nat,
)
    requires
        fuel <= more,
        !starved(call_args(tokens, state, args, fuel)),
    ensures
        call_args(tokens, state, args, more) == call_args(tokens, state, args, fuel),
    decreases fuel, 0nat,
{
    if fuel > 0 {
        let less = (fuel - 1) as nat;
        let most = (more - 1) as nat;
        match peek(tokens, state) {
            TokenView::RParen | TokenView::Semicolon | TokenView::Plus | TokenView::EOF => {},
            TokenView::Comma => budget_call_args(tokens, step(state), args, less, most),
            TokenView::LParen => {
                budget_function(tokens, state, true, less, most);
                match function(tokens, state, true, less) {
                    Ok((arg, after)) => budget_call_args(
                        tokens,
                        after,
                        args.push(arg),
                        less,
                        most,
                    ),
                    Err(_) => {},
                }
            },
            _ => {
                budget_expression(tokens, state, less, most);
                match expression(tokens, state, less) {
                    Ok((arg, after)) => budget_call_args(
                        tokens,
                        after,
                        args.push(arg),
                        less,
                        most,
                    ),
                    Err(_) => {},
                }
            },
        }
    }
}

/// `call` gives within a larger budget what it gives within a budget in
/// which it does not starve.
proof fn budget_call(tokens: Seq<TokenView>, state: ParseState, fuel: nat, more: nat)
    requires
        fuel <= more,
        !starved(call(tokens, state, fuel)),
    ensures
        call(tokens, state, more) == call(tokens, state, fuel),
    decreases fuel, 0nat,
{
    if fuel > 0 {
        if peek(tokens, state) is Identifier {
            budget_call_args(
                tokens,
                step(step(state)),
                Seq::empty(),
                (fuel - 1) as nat,
                (more - 1) as nat,
            );
        }
    }
}

/// `function_of` gives within a larger budget what it gives within a budget in
/// which it does not starve.
proof fn budget_function_of(
    tokens: Seq<TokenView>,
    state: ParseState,
    name: Seq<char>,
    fuel: nat,
    more: nat,
)
    requires
        fuel <= more,
        !starved(function_of(tokens, state, name, fuel)),
    ensures
        function_of(tokens, state, name, more) == function_of(tokens, state, name, fuel),
    decreases fuel, 0nat,
{
    if fuel > 0 {
        let less = (fuel - 1) as nat;
        let most = (more - 1) as nat;
        budget_params(tokens, step(state), Seq::empty(), less, most);
        match params(tokens, step(state), Seq::empty(), less) {
            Ok((_, then)) => budget_block(tokens, then, less, most),
            Err(_) => {},
        }
    }
}

/// `function` gives within a larger budget what it gives within a budget in
/// which it does not starve.
proof fn budget_function(
    tokens: Seq<TokenView>,
    state: ParseState,
    nameless: bool,
    fuel: nat,
    more: nat,
)
    requires
        fuel <= more,
        !starved(function(tokens, state, nameless, fuel)),
    ensures
        function(tokens, state, nameless, more) == function(tokens, state, nameless, fuel),
    decreases fuel, 1nat,
{
    if nameless {
        budget_function_of(tokens, state, anonymous(), fuel, more);
    } else {
        let named = step(state);
        match peek(tokens, named) {
            TokenView::Identifier(name) => {
                budget_function_of(tokens, step(named), name, fuel, more);
            },
            _ => {},
        }
    }
}

/// `block_items` gives within a larger budget what it gives within a budget in
/// which it does not starve.
proof fn budget_block_items(
    tokens: Seq<TokenView>,
    state: ParseState,
    items: Seq<ExprView>,
    fuel: nat,
    more: nat,
)
    requires
        fuel <= more,
        !starved(block_items(tokens, state, items, fuel)),
    ensures
        block_items(tokens, state, items, more) == block_items(tokens, state, items, fuel),
    decreases fuel, 0nat,
{
    if fuel > 0 {
        let less = (fuel - 1) as nat;
        let most = (more - 1) as nat;
        match peek(tokens, state) {
            TokenView::LCurly => budget_block_items(
                tokens,
                step(state),
                items,
                less,
                most,
            ),
            TokenView::RCurly => {},
            _ => {
                budget_statement(tokens, state, less, most);
                match statement(tokens, state, less) {
                    Ok((item, after)) => budget_block_items(
                        tokens,
                        after,
                        items.push(item),
                        less,
                        most,
                    ),
                    Err(_) => {},
                }
            },
        }
    }
}

/// `block` gives within a larger budget what it gives within a budget in
/// which it does not starve.
proof fn budget_block(tokens: Seq<TokenView>, state: ParseState, fuel: nat, more: nat)
    requires
        fuel <= more,
        !starved(block(tokens, state, fuel)),
    ensures
        block(tokens, state, more) == block(tokens, state, fuel),
    decreases fuel, 1nat,
{
    budget_block_items(tokens, state, Seq::empty(), fuel, more);
}

/// `identifier` gives within a larger budget what it gives within a budget in
/// which it does not starve.
proof fn budget_identifier(tokens: Seq<TokenView>, state: ParseState, fuel: nat, more: nat)
    requires
        fuel <= more,
        !starved(identifier(tokens, state, fuel)),
    ensures
        identifier(tokens, state, more) == identifier(tokens, state, fuel),
    decreases fuel, 0nat,
{
    if fuel > 0 {
        let less = (fuel - 1) as nat;
        let most = (more - 1) as nat;
        match peek(tokens, state) {
            TokenView::Identifier(name) => {
                let then = step(state);
                if name != pass_word() {
                    match peek(tokens, then) {
                        TokenView::LParen => budget_call(tokens, state, less, most),
                        TokenView::LBracket => budget_array_access(tokens, state, less, most),
                        TokenView::Plus | TokenView::Minus => {
                            if peek(tokens, step(then)) is Equal {
                                budget_shorthand(tokens, state, less, most);
                            }
                        },
                        TokenView::Dot => budget_property_access(tokens, state, less, most),
                        _ => {},
                    }
                }
            },
            _ => {},
        }
    }
}

/// `array_access` gives within a larger budget what it gives within a budget in
/// which it does not starve.
proof fn budget_array_access(tokens: Seq<TokenView>, state: ParseState, fuel: nat, more: nat)
    requires
        fuel <= more,
        !starved(array_access(tokens, state, fuel)),
    ensures
        array_access(tokens, state, more) == array_access(tokens, state, fuel),
    decreases fuel, 0nat,
{
    if fuel > 0 {
        if peek(tokens, state) is Identifier {
            budget_expression(
                tokens,
                step(step(state)),
                (fuel - 1) as nat,
                (more - 1) as nat,
            );
        }
    }
}

/// `declared_value` gives within a larger budget what it gives within a budget in
/// which it does not starve.
proof fn budget_declared_value(tokens: Seq<TokenView>, state: ParseState, fuel: nat, more: nat)
    requires
        fuel <= more,
        !starved(declared_value(tokens, state, fuel)),
    ensures
        declared_value(tokens, state, more) == declared_value(tokens, state, fuel),
    decreases fuel, 0nat,
{
    if fuel > 0 {
        let less = (fuel - 1) as nat;
        let most = (more - 1) as nat;
        budget_statement(tokens, state, less, most);
        match statement(tokens, state, less) {
            Ok((_, then)) => {
                if peek(tokens, then) is Plus {
                    budget_expression(tokens, step(then), less, most);
                }
            },
            Err(_) => {},
        }
    }
}

/// `declaration` gives within a larger budget what it gives within a budget in
/// which it does not starve.
proof fn budget_declaration(tokens: Seq<TokenView>, state: ParseState, fuel: nat, more: nat)
    requires
        fuel <= more,
        !starved(declaration(tokens, state, fuel)),
    ensures
        declaration(tokens, state, more) == declaration(tokens, state, fuel),
    decreases fuel, 0nat,
{
    if fuel > 0 {
        let named = step(state);
        if peek(tokens, named) is Identifier {
            match annotation(tokens, step(named)) {
                Ok((_, then)) => budget_declared_value(
                    tokens,
                    step(then),
                    (fuel - 1) as nat,
                    (more - 1) as nat,
                ),
                Err(_) => {},
            }
        }
    }
}

/// `assignment` gives within a larger budget what it gives within a budget in
/// which it does not starve.
proof fn budget_assignment(tokens: Seq<TokenView>, state: ParseState, fuel: nat, more: nat)
    requires
        fuel <= more,
        !starved(assignment(tokens, state, fuel)),
    ensures
        assignment(tokens, state, more) == assignment(tokens, state, fuel),
    decreases fuel, 0nat,
{
    if fuel > 0 && !(state.pos < 1 || state.done.len() == 0) {
        let named = ParseState { pos: state.pos - 1, done: state.done.drop_last() };
        if peek(tokens, named) is Identifier {
            budget_expression(
                tokens,
                step(step(named)),
                (fuel - 1) as nat,
                (more - 1) as nat,
            );
        }
    }
}

/// `shorthand` gives within a larger budget what it gives within a budget in
/// which it does not starve.
proof fn budget_shorthand(tokens: Seq<TokenView>, state: ParseState, fuel: nat, more: nat)
    requires
        fuel <= more,
        !starved(shorthand(tokens, state, fuel)),
    ensures
        shorthand(tokens, state, more) == shorthand(tokens, state, fuel),
    decreases fuel, 0nat,
{
    if fuel > 0 {
        if peek(tokens, state) is Identifier {
            let signed = step(state);
            if peek(tokens, signed) is Plus || peek(tokens, signed) is Minus {
                budget_expression(
                    tokens,
                    step(step(signed)),
                    (fuel - 1) as nat,
                    (more - 1) as nat,
                );
            }
        }
    }
}

/// `primary` gives within a larger budget what it gives within a budget in
/// which it does not starve.
proof fn budget_primary(tokens: Seq<TokenView>, state: ParseState, fuel: nat, more: nat)
    requires
        fuel <= more,
        !starved(primary(tokens, state, fuel)),
    ensures
        primary(tokens, state, more) == primary(tokens, state, fuel),
    decreases fuel, 0nat,
{
    if fuel > 0 {
        let less = (fuel - 1) as nat;
        let most = (more - 1) as nat;
        match peek(tokens, state) {
            TokenView::Identifier(_) => budget_identifier(tokens, state, less, most),
            TokenView::LBracket => budget_array(tokens, state, less, most),
            TokenView::Plus | TokenView::Minus => {
                if state.pos >= 1 {
                    budget_shorthand(tokens, back(state), less, most);
                }
            },
            _ => {},
        }
    }
}

/// `operations` gives within a larger budget what it gives within a budget in
/// which it does not starve.
proof fn budget_operations(
    tokens: Seq<TokenView>,
    state: ParseState,
    left: ExprView,
    fuel: nat,
    more: nat,
)
    requires
        fuel <= more,
        !starved(operations(tokens, state, left, fuel)),
    ensures
        operations(tokens, state, left, more) == operations(tokens, state, left, fuel),
    decreases fuel, 0nat,
{
    if fuel > 0 {
        let less = (fuel - 1) as nat;
        let most = (more - 1) as nat;
        match arithmetic(peek(tokens, state)) {
            Some(operator) => {
                budget_statement(tokens, step(state), less, most);
                match statement(tokens, step(state), less) {
                    Ok((right, after)) => budget_operations(
                        tokens,
                        after,
                        binary(operator, left, right),
                        less,
                        most,
                    ),
                    Err(_) => {},
                }
            },
            None => {},
        }
    }
}

/// `expression` gives within a larger budget what it gives within a budget in
/// which it does not starve.
proof fn budget_expression(tokens: Seq<TokenView>, state: ParseState, fuel: nat, more: nat)
    requires
        fuel <= more,
        !starved(expression(tokens, state, fuel)),
    ensures
        expression(tokens, state, more) == expression(tokens, state, fuel),
    decreases fuel, 0nat,
{
    if fuel > 0 && !(peek(tokens, state) is RBracket) {
        let less = (fuel - 1) as nat;
        let most = (more - 1) as nat;
        budget_primary(tokens, state, less, most);
        match primary(tokens, state, less) {
            Ok((first, then)) => budget_operations(tokens, then, first, less, most),
            Err(_) => {},
        }
    }
}

/// `array_items` gives within a larger budget what it gives within a budget in
/// which it does not starve.
proof fn budget_array_items(
    tokens: Seq<TokenView>,
    state: ParseState,
    items: Seq<ExprView>,
    fuel: nat,
    more: nat,
)
    requires
        fuel <= more,
        !starved(array_items(tokens, state, items, fuel)),
    ensures
        array_items(tokens, state, items, more) == array_items(tokens, state, items, fuel),
    decreases fuel, 0nat,
{
    if fuel > 0 {
        let less = (fuel - 1) as nat;
        let most = (more - 1) as nat;
        match peek(tokens, state) {
            TokenView::RBracket | TokenView::Semicolon | TokenView::LCurly => {},
            TokenView::Comma => budget_array_items(
                tokens,
                step(state),
                items,
                less,
                most,
            ),
            _ => {
                budget_expression(tokens, state, less, most);
                match expression(tokens, state, less) {
                    Ok((item, after)) => budget_array_items(
                        tokens,
                        after,
                        items.push(item),
                        less,
                        most,
                    ),
                    Err(_) => {},
                }
            },
        }
    }
}

/// `array` gives within a larger budget what it gives within a budget in
/// which it does not starve.
proof fn budget_array(tokens: Seq<TokenView>, state: ParseState, fuel: nat, more: nat)
    requires
        fuel <= more,
        !starved(array(tokens, state, fuel)),
    ensures
        array(tokens, state, more) == array(tokens, state, fuel),
    decreases fuel, 0nat,
{
    if fuel > 0 {
        budget_array_items(
            tokens,
            step(state),
            Seq::empty(),
            (fuel - 1) as nat,
            (more - 1) as nat,
        );
    }
}

/// `property_access` gives within a larger budget what it gives within a budget in
/// which it does not starve.
proof fn budget_property_access(tokens: Seq<TokenView>, state: ParseState, fuel: nat, more: nat)
    requires
        fuel <= more,
        !starved(property_access(tokens, state, fuel)),
    ensures
        property_access(tokens, state, more) == property_access(tokens, state, fuel),
    decreases fuel, 0nat,
{
    if fuel > 0 {
        if peek(tokens, state) is Identifier {
            budget_expression(
                tokens,
                step(step(state)),
                (fuel - 1) as nat,
                (more - 1) as nat,
            );
        }
    }
}

/// The budget only ever ends a parse. Whatever a run of tokens parses to
/// within a budget, or fails with for a reason of its own, it parses to, or
/// fails with, within every larger budget: within the largest, too.
pub proof fn law_budget(tokens: Seq<TokenView>, state: ParseState, fuel: nat, more: nat)
    requires
        fuel <= more,
        program(tokens, state, fuel) != Err::<ParseState, ParseError>(ParseError::TooDeep),
    ensures
        program(tokens, state, more) == program(tokens, state, fuel),
    decreases fuel,
{
    if state.pos < tokens.len() && fuel > 0 {
        let less = (fuel - 1) as nat;
        let most = (more - 1) as nat;
        budget_statement(tokens, state, less, most);
        match statement(tokens, state, less) {
            Ok((item, after)) => law_budget(
                tokens,
                ParseState { done: after.done.push(item), ..after },
                less,
                most,
            ),
            Err(_) => {},
        }
    }
}


/// The budget that suffices from a state: `at_end` where the state stands at
/// the end of the tokens, and elsewhere `rank` and 64 for each token that is
/// left. The rank of a function is larger than that of every function that
/// it calls without a token between them; every other call has the 64 of a
/// token to spend.
pub open spec fn enough(tokens: Seq<TokenView>, state: ParseState, at_end: nat, rank: nat) -> nat {
    if state.pos >= tokens.len() {
        at_end
    } else {
        (64 * (tokens.len() - state.pos) + rank) as nat
    }
}

/// The budget that suffices for a shorthand assignment, which goes on three
/// tokens further on.
pub open spec fn enough_shorthand(tokens: Seq<TokenView>, state: ParseState) -> nat {
    if state.pos + 2 > tokens.len() {
        1
    } else {
        (64 * (tokens.len() - state.pos - 2) + 5) as nat
    }
}

/// The budget that suffices for an assignment, which goes on one token
/// further on.
pub open spec fn enough_assignment(tokens: Seq<TokenView>, state: ParseState) -> nat {
    if state.pos + 2 > tokens.len() {
        3
    } else {
        (64 * (tokens.len() - state.pos - 1) + 5) as nat
    }
}

/// `params` does not starve within a budget that suffices from its state.
proof fn feeds_params(tokens: Seq<TokenView>, state: ParseState, names: Seq<Seq<char>>, fuel: nat)
    requires
        placed(state),
        fuel >= enough(tokens, state, 1, 1),
    ensures
        !starved(params(tokens, state, names, fuel)),
    decreases fuel, 0nat,
{
    let less = (fuel - 1) as nat;
    match peek(tokens, state) {
        TokenView::LParen | TokenView::Comma => {
            feeds_params(tokens, step(state), names, less);
        },
        TokenView::Identifier(name) => {
            feeds_params(tokens, step(state), names.push(name), less);
        },
        _ => {},
    }
}

/// `statement` does not starve within a budget that suffices from its state.
proof fn feeds_statement(tokens: Seq<TokenView>, state: ParseState, fuel: nat)
    requires
        placed(state),
        fuel >= enough(tokens, state, 1, 6),
    ensures
        !starved(statement(tokens, state, fuel)),
    decreases fuel, 0nat,
{
    let less = (fuel - 1) as nat;
    match peek(tokens, state) {
        TokenView::Plus
        | TokenView::Minus
        | TokenView::Star
        | TokenView::Slash
        | TokenView::RParen
        | TokenView::LBracket
        | TokenView::Comma
        | TokenView::Semicolon => feeds_expression(tokens, state, less),
        TokenView::Not
        | TokenView::LArrow
        | TokenView::RArrow
        | TokenView::Equality => feeds_comparison(tokens, state, less),
        TokenView::Equal => feeds_assignment(tokens, state, less),
        TokenView::Dot => feeds_property_access(tokens, step(state), less),
        TokenView::Let => feeds_declaration(tokens, state, less),
        TokenView::Identifier(_) => feeds_identifier(tokens, state, less),
        TokenView::Func => feeds_function(tokens, state, false, less),
        TokenView::If => feeds_conditional(tokens, state, less),
        TokenView::While => feeds_while_loop(tokens, state, less),
        TokenView::For => feeds_for_loop(tokens, state, less),
        TokenView::Return => feeds_return_value(tokens, state, less),
        TokenView::Class => feeds_class(tokens, state, less),
        TokenView::LParen => feeds_function(tokens, state, true, less),
        _ => {},
    }
}

/// `class` does not starve within a budget that suffices from its state.
proof fn feeds_class(tokens: Seq<TokenView>, state: ParseState, fuel: nat)
    requires
        placed(state),
        fuel >= enough(tokens, state, 1, 1),
    ensures
        !starved(class(tokens, state, fuel)),
    decreases fuel, 0nat,
{
    let named = step(state);
    if peek(tokens, named) is Identifier {
        feeds_block(tokens, step(named), (fuel - 1) as nat);
    }
}

/// `while_loop` does not starve within a budget that suffices from its state.
proof fn feeds_while_loop(tokens: Seq<TokenView>, state: ParseState, fuel: nat)
    requires
        placed(state),
        fuel >= enough(tokens, state, 1, 1),
    ensures
        !starved(while_loop(tokens, state, fuel)),
    decreases fuel, 0nat,
{
    let less = (fuel - 1) as nat;
    let start = step(state);
    feeds_comparison(tokens, start, less);
    moves_comparison(tokens, start, less);
    match comparison(tokens, start, less) {
        Ok((_, then)) => feeds_block(tokens, then, less),
        Err(_) => {},
    }
}

/// `for_loop` does not starve within a budget that suffices from its state.
proof fn feeds_for_loop(tokens: Seq<TokenView>, state: ParseState, fuel: nat)
    requires
        placed(state),
        fuel >= enough(tokens, state, 1, 1),
    ensures
        !starved(for_loop(tokens, state, fuel)),
    decreases fuel, 0nat,
{
    let less = (fuel - 1) as nat;
    let named = step(state);
    if peek(tokens, named) is Identifier {
        let start = step(step(named));
        feeds_statement(tokens, start, less);
        moves_statement(tokens, start, less);
        match statement(tokens, start, less) {
            Ok((_, then)) => feeds_block(tokens, then, less),
            Err(_) => {},
        }
    }
}

/// `compared` does not starve within a budget that suffices from its state.
proof fn feeds_compared(
    tokens: Seq<TokenView>,
    state: ParseState,
    operator: Operator,
    left: ExprView,
    fuel: nat,
)
    requires
        placed(state),
        fuel >= enough(tokens, state, 3, 5),
    ensures
        !starved(compared(tokens, state, operator, left, fuel)),
    decreases fuel, 0nat,
{
    feeds_expression(tokens, state, (fuel - 1) as nat);
}

/// `comparison` does not starve within a budget that suffices from its state.
proof fn feeds_comparison(tokens: Seq<TokenView>, state: ParseState, fuel: nat)
    requires
        placed(state),
        fuel >= enough(tokens, state, 0, 1),
    ensures
        !starved(comparison(tokens, state, fuel)),
    decreases fuel, 1nat,
{
    match operand(peek(tokens, state)) {
        None => {},
        Some(left) => {
            let then = step(state);
            let further = step(then);
            let equal = peek(tokens, further) is Equal;
            let beyond = step(further);
            match peek(tokens, then) {
                TokenView::Not => {
                    if equal {
                        feeds_compared(tokens, beyond, Operator::NotEqual, left, fuel);
                    }
                },
                TokenView::Equality => {
                    feeds_compared(tokens, further, Operator::Equality, left, fuel);
                },
                TokenView::LArrow => {
                    if equal {
                        feeds_compared(tokens, beyond, Operator::LesserEqual, left, fuel);
                    } else {
                        feeds_compared(tokens, further, Operator::Lesser, left, fuel);
                    }
                },
                TokenView::RArrow => {
                    if equal {
                        feeds_compared(tokens, beyond, Operator::GreaterEqual, left, fuel);
                    } else {
                        feeds_compared(tokens, further, Operator::Greater, left, fuel);
                    }
                },
                _ => {},
            }
        },
    }
}

/// `otherwise` does not starve within a budget that suffices from its state.
proof fn feeds_otherwise(tokens: Seq<TokenView>, state: ParseState, fuel: nat)
    requires
        placed(state),
        fuel >= enough(tokens, state, 1, 1),
    ensures
        !starved(otherwise(tokens, state, fuel)),
    decreases fuel, 0nat,
{
    let less = (fuel - 1) as nat;
    if peek(tokens, state) is Else {
        let then = step(state);
        if peek(tokens, then) is If {
            feeds_conditional(tokens, then, less);
        } else {
            feeds_block(tokens, then, less);
        }
    }
}

/// `conditional` does not starve within a budget that suffices from its state.
proof fn feeds_conditional(tokens: Seq<TokenView>, state: ParseState, fuel: nat)
    requires
        placed(state),
        fuel >= enough(tokens, state, 1, 1),
    ensures
        !starved(conditional(tokens, state, fuel)),
    decreases fuel, 0nat,
{
    let less = (fuel - 1) as nat;
    let start = step(state);
    feeds_comparison(tokens, start, less);
    moves_comparison(tokens, start, less);
    match comparison(tokens, start, less) {
        Ok((_, then)) => {
            feeds_block(tokens, then, less);
            moves_block(tokens, then, less);
            match block(tokens, then, less) {
                Ok((_, further)) => feeds_otherwise(tokens, further, less),
                Err(_) => {},
            }
        },
        Err(_) => {},
    }
}

/// `return_value` does not starve within a budget that suffices from its state.
proof fn feeds_return_value(tokens: Seq<TokenView>, state: ParseState, fuel: nat)
    requires
        placed(state),
        fuel >= enough(tokens, state, 3, 1),
    ensures
        !starved(return_value(tokens, state, fuel)),
    decreases fuel, 0nat,
{
    feeds_expression(tokens, step(state), (fuel - 1) as nat);
}

/// `call_args` does not starve within a budget that suffices from its state.
proof fn feeds_call_args(tokens: Seq<TokenView>, state: ParseState, args: Seq<ExprView>, fuel: nat)
    requires
        placed(state),
        fuel >= enough(tokens, state, 1, 5),
    ensures
        !starved(call_args(tokens, state, args, fuel)),
    decreases fuel, 0nat,
{
    let less = (fuel - 1) as nat;
    match peek(tokens, state) {
        TokenView::RParen | TokenView::Semicolon | TokenView::Plus | TokenView::EOF => {},
        TokenView::Comma => feeds_call_args(tokens, step(state), args, less),
        TokenView::LParen => {
            feeds_function(tokens, state, true, less);
            moves_function(tokens, state, true, less);
            match function(tokens, state, true, less) {
                Ok((arg, after)) => feeds_call_args(tokens, after, args.push(arg), less),
                Err(_) => {},
            }
        },
        _ => {
            feeds_expression(tokens, state, less);
            moves_expression(tokens, state, less);
            match expression(tokens, state, less) {
                Ok((arg, after)) => feeds_call_args(tokens, after, args.push(arg), less),
                Err(_) => {},
            }
        },
    }
}

/// `call` does not starve within a budget that suffices from its state.
proof fn feeds_call(tokens: Seq<TokenView>, state: ParseState, fuel: nat)
    requires
        placed(state),
        fuel >= enough(tokens, state, 1, 1),
    ensures
        !starved(call(tokens, state, fuel)),
    decreases fuel, 0nat,
{
    if peek(tokens, state) is Identifier {
        feeds_call_args(
            tokens,
            step(step(state)),
            Seq::empty(),
            (fuel - 1) as nat,
        );
    }
}

/// `function_of` does not starve within a budget that suffices from its state.
proof fn feeds_function_of(tokens: Seq<TokenView>, state: ParseState, name: Seq<char>, fuel: nat)
    requires
        placed(state),
        fuel >= enough(tokens, state, 2, 1),
    ensures
        !starved(function_of(tokens, state, name, fuel)),
    decreases fuel, 0nat,
{
    let less = (fuel - 1) as nat;
    let start = step(state);
    feeds_params(tokens, start, Seq::empty(), less);
    moves_params(tokens, start, Seq::empty(), less);
    match params(tokens, start, Seq::empty(), less) {
        Ok((_, then)) => feeds_block(tokens, then, less),
        Err(_) => {},
    }
}

/// `function` does not starve within a budget that suffices from its state.
proof fn feeds_function(tokens: Seq<TokenView>, state: ParseState, nameless: bool, fuel: nat)
    requires
        placed(state),
        fuel >= enough(tokens, state, 2, 2),
    ensures
        !starved(function(tokens, state, nameless, fuel)),
    decreases fuel, 1nat,
{
    if nameless {
        feeds_function_of(tokens, state, anonymous(), fuel);
    } else {
        let named = step(state);
        match peek(tokens, named) {
            TokenView::Identifier(name) => {
                feeds_function_of(tokens, step(named), name, fuel);
            },
            _ => {},
        }
    }
}

/// `block_items` does not starve within a budget that suffices from its state.
proof fn feeds_block_items(
    tokens: Seq<TokenView>,
    state: ParseState,
    items: Seq<ExprView>,
    fuel: nat,
)
    requires
        placed(state),
        fuel >= enough(tokens, state, 2, 7),
    ensures
        !starved(block_items(tokens, state, items, fuel)),
    decreases fuel, 0nat,
{
    let less = (fuel - 1) as nat;
    match peek(tokens, state) {
        TokenView::LCurly => feeds_block_items(tokens, step(state), items, less),
        TokenView::RCurly => {},
        _ => {
            feeds_statement(tokens, state, less);
            moves_statement(tokens, state, less);
            match statement(tokens, state, less) {
                Ok((item, after)) => feeds_block_items(tokens, after, items.push(item), less),
                Err(_) => {},
            }
        },
    }
}

/// `block` does not starve within a budget that suffices from its state.
proof fn feeds_block(tokens: Seq<TokenView>, state: ParseState, fuel: nat)
    requires
        placed(state),
        fuel >= enough(tokens, state, 2, 7),
    ensures
        !starved(block(tokens, state, fuel)),
    decreases fuel, 1nat,
{
    feeds_block_items(tokens, state, Seq::empty(), fuel);
}

/// `identifier` does not starve within a budget that suffices from its state.
proof fn feeds_identifier(tokens: Seq<TokenView>, state: ParseState, fuel: nat)
    requires
        placed(state),
        fuel >= enough(tokens, state, 1, 2),
    ensures
        !starved(identifier(tokens, state, fuel)),
    decreases fuel, 0nat,
{
    let less = (fuel - 1) as nat;
    match peek(tokens, state) {
        TokenView::Identifier(name) => {
            let then = step(state);
            if name != pass_word() {
                match peek(tokens, then) {
                    TokenView::LParen => feeds_call(tokens, state, less),
                    TokenView::LBracket => feeds_array_access(tokens, state, less),
                    TokenView::Plus | TokenView::Minus => {
                        if peek(tokens, step(then)) is Equal {
                            feeds_shorthand(tokens, state, less);
                        }
                    },
                    TokenView::Dot => feeds_property_access(tokens, state, less),
                    _ => {},
                }
            }
        },
        _ => {},
    }
}

/// `array_access` does not starve within a budget that suffices from its state.
proof fn feeds_array_access(tokens: Seq<TokenView>, state: ParseState, fuel: nat)
    requires
        placed(state),
        fuel >= enough(tokens, state, 1, 1),
    ensures
        !starved(array_access(tokens, state, fuel)),
    decreases fuel, 0nat,
{
    if peek(tokens, state) is Identifier {
        feeds_expression(tokens, step(step(state)), (fuel - 1) as nat);
    }
}

/// `declared_value` does not starve within a budget that suffices from its state.
proof fn feeds_declared_value(tokens: Seq<TokenView>, state: ParseState, fuel: nat)
    requires
        placed(state),
        fuel >= enough(tokens, state, 2, 7),
    ensures
        !starved(declared_value(tokens, state, fuel)),
    decreases fuel, 0nat,
{
    let less = (fuel - 1) as nat;
    feeds_statement(tokens, state, less);
    moves_statement(tokens, state, less);
    match statement(tokens, state, less) {
        Ok((_, then)) => {
            if peek(tokens, then) is Plus {
                feeds_expression(tokens, step(then), less);
            }
        },
        Err(_) => {},
    }
}

/// `declaration` does not starve within a budget that suffices from its state.
proof fn feeds_declaration(tokens: Seq<TokenView>, state: ParseState, fuel: nat)
    requires
        placed(state),
        fuel >= enough(tokens, state, 1, 1),
    ensures
        !starved(declaration(tokens, state, fuel)),
    decreases fuel, 0nat,
{
    let named = step(state);
    if peek(tokens, named) is Identifier {
        match annotation(tokens, step(named)) {
            Ok((_, then)) => feeds_declared_value(tokens, step(then), (fuel - 1) as nat),
            Err(_) => {},
        }
    }
}

/// `assignment` does not starve within a budget that suffices from its state.
proof fn feeds_assignment(tokens: Seq<TokenView>, state: ParseState, fuel: nat)
    requires
        placed(state),
        fuel >= enough_assignment(tokens, state),
    ensures
        !starved(assignment(tokens, state, fuel)),
    decreases fuel, 0nat,
{
    if !(state.pos < 1 || state.done.len() == 0) {
        let named = ParseState { pos: state.pos - 1, done: state.done.drop_last() };
        if peek(tokens, named) is Identifier {
            feeds_expression(tokens, step(step(named)), (fuel - 1) as nat);
        }
    }
}

/// `shorthand` does not starve within a budget that suffices from its state.
proof fn feeds_shorthand(tokens: Seq<TokenView>, state: ParseState, fuel: nat)
    requires
        placed(state),
        fuel >= enough_shorthand(tokens, state),
    ensures
        !starved(shorthand(tokens, state, fuel)),
    decreases fuel, 0nat,
{
    if peek(tokens, state) is Identifier {
        let signed = step(state);
        if peek(tokens, signed) is Plus || peek(tokens, signed) is Minus {
            feeds_expression(tokens, step(step(signed)), (fuel - 1) as nat);
        }
    }
}

/// `primary` does not starve within a budget that suffices from its state.
proof fn feeds_primary(tokens: Seq<TokenView>, state: ParseState, fuel: nat)
    requires
        placed(state),
        fuel >= enough(tokens, state, 1, 3),
    ensures
        !starved(primary(tokens, state, fuel)),
    decreases fuel, 0nat,
{
    let less = (fuel - 1) as nat;
    match peek(tokens, state) {
        TokenView::Identifier(_) => feeds_identifier(tokens, state, less),
        TokenView::LBracket => feeds_array(tokens, state, less),
        TokenView::Plus | TokenView::Minus => {
            if state.pos >= 1 {
                feeds_shorthand(tokens, back(state), less);
            }
        },
        _ => {},
    }
}

/// `operations` does not starve within a budget that suffices from its state.
proof fn feeds_operations(tokens: Seq<TokenView>, state: ParseState, left: ExprView, fuel: nat)
    requires
        placed(state),
        fuel >= enough(tokens, state, 1, 1),
    ensures
        !starved(operations(tokens, state, left, fuel)),
    decreases fuel, 0nat,
{
    let less = (fuel - 1) as nat;
    match arithmetic(peek(tokens, state)) {
        Some(operator) => {
            let start = step(state);
            feeds_statement(tokens, start, less);
            moves_statement(tokens, start, less);
            match statement(tokens, start, less) {
                Ok((right, after)) => feeds_operations(
                    tokens,
                    after,
                    binary(operator, left, right),
                    less,
                ),
                Err(_) => {},
            }
        },
        None => {},
    }
}

/// `expression` does not starve within a budget that suffices from its state.
proof fn feeds_expression(tokens: Seq<TokenView>, state: ParseState, fuel: nat)
    requires
        placed(state),
        fuel >= enough(tokens, state, 2, 4),
    ensures
        !starved(expression(tokens, state, fuel)),
    decreases fuel, 0nat,
{
    if !(peek(tokens, state) is RBracket) {
        let less = (fuel - 1) as nat;
        feeds_primary(tokens, state, less);
        moves_primary(tokens, state, less);
        match primary(tokens, state, less) {
            Ok((first, then)) => feeds_operations(tokens, then, first, less),
            Err(_) => {},
        }
    }
}

/// `array_items` does not starve within a budget that suffices from its state.
proof fn feeds_array_items(
    tokens: Seq<TokenView>,
    state: ParseState,
    items: Seq<ExprView>,
    fuel: nat,
)
    requires
        placed(state),
        fuel >= enough(tokens, state, 3, 5),
    ensures
        !starved(array_items(tokens, state, items, fuel)),
    decreases fuel, 0nat,
{
    let less = (fuel - 1) as nat;
    match peek(tokens, state) {
        TokenView::RBracket | TokenView::Semicolon | TokenView::LCurly => {},
        TokenView::Comma => feeds_array_items(tokens, step(state), items, less),
        _ => {
            feeds_expression(tokens, state, less);
            moves_expression(tokens, state, less);
            match expression(tokens, state, less) {
                Ok((item, after)) => feeds_array_items(tokens, after, items.push(item), less),
                Err(_) => {},
            }
        },
    }
}

/// `array` does not starve within a budget that suffices from its state.
proof fn feeds_array(tokens: Seq<TokenView>, state: ParseState, fuel: nat)
    requires
        placed(state),
        fuel >= enough(tokens, state, 1, 1),
        peek(tokens, state) is LBracket,
    ensures
        !starved(array(tokens, state, fuel)),
    decreases fuel, 0nat,
{
    feeds_array_items(tokens, step(state), Seq::empty(), (fuel - 1) as nat);
}

/// `property_access` does not starve within a budget that suffices from its state.
proof fn feeds_property_access(tokens: Seq<TokenView>, state: ParseState, fuel: nat)
    requires
        placed(state),
        fuel >= enough(tokens, state, 1, 1),
    ensures
        !starved(property_access(tokens, state, fuel)),
    decreases fuel, 0nat,
{
    if peek(tokens, state) is Identifier {
        feeds_expression(tokens, step(step(state)), (fuel - 1) as nat);
    }
}

/// A budget of 64 for each token that is left, and seven more, suffices: a
/// parse within it does not end with `TooDeep`.
pub proof fn law_enough_budget(tokens: Seq<TokenView>, state: ParseState, fuel: nat)
    requires
        placed(state),
        fuel >= 64 * (tokens.len() - state.pos) + 7,
    ensures
        program(tokens, state, fuel) != Err::<ParseState, ParseError>(ParseError::TooDeep),
    decreases fuel,
{
    if state.pos < tokens.len() {
        let less = (fuel - 1) as nat;
        feeds_statement(tokens, state, less);
        moves_statement(tokens, state, less);
        match statement(tokens, state, less) {
            Ok((item, after)) => law_enough_budget(
                tokens,
                ParseState { done: after.done.push(item), ..after },
                less,
            ),
            Err(_) => {},
        }
    }
}

/// The largest budget, with which a parser starts, suffices for every run of
/// fewer than 2 to the 57 tokens: parsing such a run from its start does not
/// end with `TooDeep`, and every budget that suffices as well gives the same.
pub proof fn law_largest_budget(tokens: Seq<TokenView>, fuel: nat)
    requires
        tokens.len() < 0x200_0000_0000_0000,
    ensures
        program(tokens, ParseState { pos: 0, done: Seq::empty() }, budget()) != Err::<
            ParseState,
            ParseError,
        >(ParseError::TooDeep),
        64 * tokens.len() + 7 <= fuel <= budget() ==> program(
            tokens,
            ParseState { pos: 0, done: Seq::empty() },
            fuel,
        ) == program(tokens, ParseState { pos: 0, done: Seq::empty() }, budget()),
{
    let start = ParseState { pos: 0, done: Seq::empty() };
    law_enough_budget(tokens, start, budget());
    if 64 * tokens.len() + 7 <= fuel <= budget() {
        law_enough_budget(tokens, start, fuel);
        law_budget(tokens, start, fuel, budget());
    }
}

} // verus!
