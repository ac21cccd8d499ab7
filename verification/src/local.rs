//! The rules are local. A rule looks at no token behind the one it stops
//! at: where two streams agree up to and with that token, the rule yields
//! the same on both. So a form that was read from the beginning of a
//! stream, and that stopped before the end of what was there, is the form
//! that the whole stream gives.

use vstd::prelude::*;
use crate::ast::{CallArgView, ExprView, MatchBranchView};
use crate::grammar::{
    arguments, assignment, at_end, binary, binary_tail, block, block_items, braces, call,
    callback_pipe, combine, decorated, decorators, define_macro, expression, finish_call,
    function, group, is_binding, is_compound, is_operator, is_restart, kind_at, lambda,
    level_rank, list_items, list_literal, match_branches, match_expression, more_arguments,
    object_entries, object_literal, operand, parameter_items, parameters, postfix, primary,
    redefine_macro, shell_expression, skip_to_restart, ternary, token_at, top_level,
    trailing_pipe, try_expression, unary, unsafe_expression, DecoratorView, Entries, Level,
    MacroMap, Signature, Step,
};
use crate::soundness::{
    arguments_keeps, assignment_keeps, binary_keeps, binary_tail_keeps, block_items_keeps,
    block_keeps, braces_keeps, call_keeps, callback_pipe_keeps, decorated_keeps, decorators_keeps,
    define_macro_keeps, expression_keeps, finish_call_keeps, function_keeps, group_keeps, kept,
    lambda_keeps, list_items_keeps, list_literal_keeps, match_branches_keeps,
    match_expression_keeps, more_arguments_keeps, object_entries_keeps, object_literal_keeps,
    operand_keeps, parameter_items_keeps, parameters_keeps, postfix_keeps, primary_keeps, ready,
    redefine_macro_keeps, skip_keeps, ternary_keeps, trailing_pipe_keeps, try_expression_keeps,
    unary_keeps, wrapped_keeps,
};
use crate::token::{TokenType, TokenView};

verus! {

/// Whether two streams agree in their first `n` tokens.
pub open spec fn agree(a: Seq<TokenView>, b: Seq<TokenView>, n: nat) -> bool {
    n <= a.len() && n <= b.len() && forall|i: int| 0 <= i < n ==> a[i] == b[i]
}

/// An expression is local.
#[verifier::rlimit(80)]
pub proof fn expression_is_local(ts: Seq<TokenView>, other: Seq<TokenView>, n: nat, pos: nat, m: MacroMap)
    requires
        ready(ts, pos, m),
        agree(ts, other, n),
        expression(ts, pos, m).pos < n,
    ensures
        expression(other, pos, m) == expression(ts, pos, m),
    decreases ts.len() - pos, 40nat,
{
    expression_keeps(ts, pos, m);
    assignment_keeps(ts, pos, m);
    assignment_is_local(ts, other, n, pos, m);
}

#[verifier::rlimit(80)]
proof fn assignment_is_local(ts: Seq<TokenView>, other: Seq<TokenView>, n: nat, pos: nat, m: MacroMap)
    requires
        ready(ts, pos, m),
        agree(ts, other, n),
        assignment(ts, pos, m).pos < n,
    ensures
        assignment(other, pos, m) == assignment(ts, pos, m),
    decreases ts.len() - pos, 39nat,
{
    assignment_keeps(ts, pos, m);
    binary_keeps(ts, pos, m, Level::Or);
    let target = binary(ts, pos, m, Level::Or);
    if target.carries_on(ts, pos) {
        let kind = kind_at(ts, target.pos);
        if is_binding(kind) || is_compound(kind) {
            assignment_keeps(ts, target.pos + 1, target.macros);
        }
    }
    binary_is_local(ts, other, n, pos, m, Level::Or);
    let target = binary(ts, pos, m, Level::Or);
    if target.carries_on(ts, pos) {
        let kind = kind_at(ts, target.pos);
        if is_binding(kind) || is_compound(kind) {
            assignment_is_local(ts, other, n, target.pos + 1, target.macros);
        }
    }
}

#[verifier::rlimit(80)]
proof fn operand_is_local(ts: Seq<TokenView>, other: Seq<TokenView>, n: nat, pos: nat, m: MacroMap, level: Level)
    requires
        ready(ts, pos, m),
        agree(ts, other, n),
        operand(ts, pos, m, level).pos < n,
    ensures
        operand(other, pos, m, level) == operand(ts, pos, m, level),
    decreases ts.len() - pos, 21 + 2 * level_rank(level),
{
    operand_keeps(ts, pos, m, level);
    match level {
        Level::Factor => unary_keeps(ts, pos, m),
        Level::Term => binary_keeps(ts, pos, m, Level::Factor),
        Level::Comparison => binary_keeps(ts, pos, m, Level::Term),
        Level::Equality => binary_keeps(ts, pos, m, Level::Comparison),
        Level::And => binary_keeps(ts, pos, m, Level::Equality),
        Level::Or => binary_keeps(ts, pos, m, Level::And),
    }
    match level {
        Level::Factor => unary_is_local(ts, other, n, pos, m),
        Level::Term => binary_is_local(ts, other, n, pos, m, Level::Factor),
        Level::Comparison => binary_is_local(ts, other, n, pos, m, Level::Term),
        Level::Equality => binary_is_local(ts, other, n, pos, m, Level::Comparison),
        Level::And => binary_is_local(ts, other, n, pos, m, Level::Equality),
        Level::Or => binary_is_local(ts, other, n, pos, m, Level::And),
    }
}

#[verifier::rlimit(80)]
proof fn binary_is_local(ts: Seq<TokenView>, other: Seq<TokenView>, n: nat, pos: nat, m: MacroMap, level: Level)
    requires
        ready(ts, pos, m),
        agree(ts, other, n),
        binary(ts, pos, m, level).pos < n,
    ensures
        binary(other, pos, m, level) == binary(ts, pos, m, level),
    decreases ts.len() - pos, 22 + 2 * level_rank(level),
{
    binary_keeps(ts, pos, m, level);
    operand_keeps(ts, pos, m, level);
    let first = operand(ts, pos, m, level);
    if first.carries_on(ts, pos) {
        binary_tail_keeps(ts, first.pos, first.macros, level, first.value());
    }
    operand_is_local(ts, other, n, pos, m, level);
    let first = operand(ts, pos, m, level);
    if first.carries_on(ts, pos) {
        binary_tail_is_local(ts, other, n, first.pos, first.macros, level, first.value());
    }
}

#[verifier::rlimit(80)]
proof fn binary_tail_is_local(ts: Seq<TokenView>, other: Seq<TokenView>, n: nat, pos: nat, m: MacroMap, level: Level, left: ExprView)
    requires
        ready(ts, pos, m),
        !(left is End),
        agree(ts, other, n),
        binary_tail(ts, pos, m, level, left).pos < n,
    ensures
        binary_tail(other, pos, m, level, left) == binary_tail(ts, pos, m, level, left),
    decreases ts.len() - pos, 20nat,
{
    binary_tail_keeps(ts, pos, m, level, left);
    if is_operator(level, kind_at(ts, pos)) {
        operand_keeps(ts, pos + 1, m, level);
        let right = operand(ts, pos + 1, m, level);
        if right.carries_on(ts, pos + 1) {
            binary_tail_keeps(
                ts,
                right.pos,
                right.macros,
                level,
                combine(level, left, right.value(), token_at(ts, pos)),
            );
        }
    }
    if is_operator(level, kind_at(ts, pos)) {
        operand_is_local(ts, other, n, pos + 1, m, level);
        let right = operand(ts, pos + 1, m, level);
        if right.carries_on(ts, pos + 1) {
            binary_tail_is_local(ts, other, n,
                right.pos,
                right.macros,
                level,
                combine(level, left, right.value(), token_at(ts, pos)),
            );
        }
    }
}

#[verifier::rlimit(80)]
proof fn unary_is_local(ts: Seq<TokenView>, other: Seq<TokenView>, n: nat, pos: nat, m: MacroMap)
    requires
        ready(ts, pos, m),
        agree(ts, other, n),
        unary(ts, pos, m).pos < n,
    ensures
        unary(other, pos, m) == unary(ts, pos, m),
    decreases ts.len() - pos, 15nat,
{
    unary_keeps(ts, pos, m);
    let kind = kind_at(ts, pos);
    if kind == TokenType::Bang || kind == TokenType::Not || kind == TokenType::Minus {
        unary_keeps(ts, pos + 1, m);
    } else {
        call_keeps(ts, pos, m, None);
    }
    let kind = kind_at(ts, pos);
    if kind == TokenType::Bang || kind == TokenType::Not || kind == TokenType::Minus {
        unary_is_local(ts, other, n, pos + 1, m);
    } else {
        call_is_local(ts, other, n, pos, m, None);
    }
}

#[verifier::rlimit(80)]
proof fn call_is_local(ts: Seq<TokenView>, other: Seq<TokenView>, n: nat, pos: nat, m: MacroMap, piped: Option<ExprView>)
    requires
        ready(ts, pos, m),
        agree(ts, other, n),
        call(ts, pos, m, piped).pos < n,
    ensures
        call(other, pos, m, piped) == call(ts, pos, m, piped),
    decreases ts.len() - pos, 14nat,
{
    call_keeps(ts, pos, m, piped);
    primary_keeps(ts, pos, m);
    let head = primary(ts, pos, m);
    if head.carries_on(ts, pos) {
        postfix_keeps(ts, head.pos, head.macros, head.value(), piped);
    }
    primary_is_local(ts, other, n, pos, m);
    let head = primary(ts, pos, m);
    if head.carries_on(ts, pos) {
        postfix_is_local(ts, other, n, head.pos, head.macros, head.value(), piped);
    }
}

#[verifier::rlimit(80)]
proof fn postfix_is_local(
    ts: Seq<TokenView>, other: Seq<TokenView>, n: nat,
    pos: nat,
    m: MacroMap,
    expr: ExprView,
    piped: Option<ExprView>,
)
    requires
        ready(ts, pos, m),
        !(expr is End),
        agree(ts, other, n),
        postfix(ts, pos, m, expr, piped).pos < n,
    ensures
        postfix(other, pos, m, expr, piped) == postfix(ts, pos, m, expr, piped),
    decreases ts.len() - pos, 13nat,
{
    postfix_keeps(ts, pos, m, expr, piped);
    let kind = kind_at(ts, pos);
    if kind == TokenType::LParen {
        finish_call_keeps(ts, pos + 1, m, expr, piped);
        let made = finish_call(ts, pos + 1, m, expr, piped);
        if made.carries_on(ts, pos + 1) {
            postfix_keeps(ts, made.pos, made.macros, made.value(), None);
        }
    } else if kind == TokenType::Dot {
        binary_keeps(ts, pos + 1, m, Level::Or);
        let member = binary(ts, pos + 1, m, Level::Or);
        if member.carries_on(ts, pos + 1) {
            postfix_keeps(
                ts,
                member.pos,
                member.macros,
                ExprView::Get {
                    instance: Box::new(expr),
                    value: Box::new(member.value()),
                    token: token_at(ts, pos),
                },
                piped,
            );
        }
    } else if kind == TokenType::RPipe {
        call_keeps(ts, pos + 1, m, Some(expr));
    } else if kind == TokenType::Question {
        ternary_keeps(ts, pos + 1, m, expr, token_at(ts, pos));
        let made = ternary(ts, pos + 1, m, expr, token_at(ts, pos));
        if made.carries_on(ts, pos + 1) {
            postfix_keeps(ts, made.pos, made.macros, made.value(), piped);
        }
    }
    let kind = kind_at(ts, pos);
    if kind == TokenType::LParen {
        finish_call_is_local(ts, other, n, pos + 1, m, expr, piped);
        let made = finish_call(ts, pos + 1, m, expr, piped);
        if made.carries_on(ts, pos + 1) {
            postfix_is_local(ts, other, n, made.pos, made.macros, made.value(), None);
        }
    } else if kind == TokenType::Dot {
        binary_is_local(ts, other, n, pos + 1, m, Level::Or);
        let member = binary(ts, pos + 1, m, Level::Or);
        if member.carries_on(ts, pos + 1) {
            postfix_is_local(ts, other, n,
                member.pos,
                member.macros,
                ExprView::Get {
                    instance: Box::new(expr),
                    value: Box::new(member.value()),
                    token: token_at(ts, pos),
                },
                piped,
            );
        }
    } else if kind == TokenType::RPipe {
        call_is_local(ts, other, n, pos + 1, m, Some(expr));
    } else if kind == TokenType::Question {
        ternary_is_local(ts, other, n, pos + 1, m, expr, token_at(ts, pos));
        let made = ternary(ts, pos + 1, m, expr, token_at(ts, pos));
        if made.carries_on(ts, pos + 1) {
            postfix_is_local(ts, other, n, made.pos, made.macros, made.value(), piped);
        }
    }
}

#[verifier::rlimit(80)]
proof fn ternary_is_local(ts: Seq<TokenView>, other: Seq<TokenView>, n: nat, pos: nat, m: MacroMap, cond: ExprView, mark: TokenView)
    requires
        ready(ts, pos, m),
        agree(ts, other, n),
        ternary(ts, pos, m, cond, mark).pos < n,
    ensures
        ternary(other, pos, m, cond, mark) == ternary(ts, pos, m, cond, mark),
    decreases ts.len() - pos, 51nat,
{
    ternary_keeps(ts, pos, m, cond, mark);
    expression_keeps(ts, pos, m);
    let yes = expression(ts, pos, m);
    if yes.carries_on(ts, pos) && kind_at(ts, yes.pos) == TokenType::Colon {
        expression_keeps(ts, yes.pos + 1, yes.macros);
    }
    expression_is_local(ts, other, n, pos, m);
    let yes = expression(ts, pos, m);
    if yes.carries_on(ts, pos) && kind_at(ts, yes.pos) == TokenType::Colon {
        expression_is_local(ts, other, n, yes.pos + 1, yes.macros);
    }
}

#[verifier::rlimit(80)]
proof fn finish_call_is_local(
    ts: Seq<TokenView>, other: Seq<TokenView>, n: nat,
    pos: nat,
    m: MacroMap,
    callee: ExprView,
    piped: Option<ExprView>,
)
    requires
        ready(ts, pos, m),
        agree(ts, other, n),
        finish_call(ts, pos, m, callee, piped).pos < n,
    ensures
        finish_call(other, pos, m, callee, piped) == finish_call(ts, pos, m, callee, piped),
    decreases ts.len() - pos, 53nat,
{
    finish_call_keeps(ts, pos, m, callee, piped);
    let first = match piped {
        Some(p) => seq![CallArgView::Positional(p)],
        None => Seq::empty(),
    };
    arguments_keeps(ts, pos, m, first);
    let args = arguments(ts, pos, m, first);
    if args.carries_on(ts, pos) && kind_at(ts, args.pos) == TokenType::RParen {
        assert(args.pos + 1 < ts.len());
        trailing_pipe_keeps(ts, args.pos + 1, args.macros, args.value());
        let trailing = trailing_pipe(ts, args.pos + 1, args.macros, args.value());
        if trailing.carries_on(ts, args.pos + 1) {
            callback_pipe_keeps(ts, trailing.pos, trailing.macros, trailing.value());
            let all = callback_pipe(ts, trailing.pos, trailing.macros, trailing.value());
            assert(kept(ts, trailing.pos, all));
            assert(pos < all.pos);
        } else {
            assert(trailing.out is Err);
        }
    }
    let first = match piped {
        Some(p) => seq![CallArgView::Positional(p)],
        None => Seq::empty(),
    };
    arguments_is_local(ts, other, n, pos, m, first);
    let args = arguments(ts, pos, m, first);
    if args.carries_on(ts, pos) && kind_at(ts, args.pos) == TokenType::RParen {
        assert(args.pos + 1 < ts.len());
        trailing_pipe_is_local(ts, other, n, args.pos + 1, args.macros, args.value());
        let trailing = trailing_pipe(ts, args.pos + 1, args.macros, args.value());
        if trailing.carries_on(ts, args.pos + 1) {
            callback_pipe_is_local(ts, other, n, trailing.pos, trailing.macros, trailing.value());
            let all = callback_pipe(ts, trailing.pos, trailing.macros, trailing.value());
            assert(kept(ts, trailing.pos, all));
            assert(pos < all.pos);
        } else {
            assert(trailing.out is Err);
        }
    }
}

#[verifier::rlimit(80)]
proof fn arguments_is_local(
    ts: Seq<TokenView>, other: Seq<TokenView>, n: nat,
    pos: nat,
    m: MacroMap,
    acc: Seq<CallArgView>,
)
    requires
        ready(ts, pos, m),
        agree(ts, other, n),
        arguments(ts, pos, m, acc).pos < n,
    ensures
        arguments(other, pos, m, acc) == arguments(ts, pos, m, acc),
    decreases ts.len() - pos, 52nat,
{
    arguments_keeps(ts, pos, m, acc);
    if kind_at(ts, pos) != TokenType::RParen {
        more_arguments_keeps(ts, pos, m, acc);
    }
    if kind_at(ts, pos) != TokenType::RParen {
        more_arguments_is_local(ts, other, n, pos, m, acc);
    }
}

#[verifier::rlimit(80)]
proof fn more_arguments_is_local(
    ts: Seq<TokenView>, other: Seq<TokenView>, n: nat,
    pos: nat,
    m: MacroMap,
    acc: Seq<CallArgView>,
)
    requires
        ready(ts, pos, m),
        agree(ts, other, n),
        more_arguments(ts, pos, m, acc).pos < n,
    ensures
        more_arguments(other, pos, m, acc) == more_arguments(ts, pos, m, acc),
    decreases ts.len() - pos, 51nat,
{
    more_arguments_keeps(ts, pos, m, acc);
    let spread = kind_at(ts, pos) == TokenType::Ellipsis;
    let start = if spread {
        pos + 1
    } else {
        pos
    };
    expression_keeps(ts, start, m);
    let arg = expression(ts, start, m);
    if arg.carries_on(ts, start) && kind_at(ts, arg.pos) == TokenType::Comma {
        let grown = acc.push(
            if spread {
                CallArgView::Unpacking(arg.value())
            } else {
                CallArgView::Positional(arg.value())
            },
        );
        more_arguments_keeps(ts, arg.pos + 1, arg.macros, grown);
    }
    let spread = kind_at(ts, pos) == TokenType::Ellipsis;
    let start = if spread {
        pos + 1
    } else {
        pos
    };
    expression_is_local(ts, other, n, start, m);
    let arg = expression(ts, start, m);
    if arg.carries_on(ts, start) && kind_at(ts, arg.pos) == TokenType::Comma {
        let grown = acc.push(
            if spread {
                CallArgView::Unpacking(arg.value())
            } else {
                CallArgView::Positional(arg.value())
            },
        );
        more_arguments_is_local(ts, other, n, arg.pos + 1, arg.macros, grown);
    }
}

#[verifier::rlimit(80)]
proof fn trailing_pipe_is_local(
    ts: Seq<TokenView>, other: Seq<TokenView>, n: nat,
    pos: nat,
    m: MacroMap,
    args: Seq<CallArgView>,
)
    requires
        ready(ts, pos, m),
        agree(ts, other, n),
        trailing_pipe(ts, pos, m, args).pos < n,
    ensures
        trailing_pipe(other, pos, m, args) == trailing_pipe(ts, pos, m, args),
    decreases ts.len() - pos, 51nat,
{
    trailing_pipe_keeps(ts, pos, m, args);
    if kind_at(ts, pos) == TokenType::LPipe {
        expression_keeps(ts, pos + 1, m);
    }
    if kind_at(ts, pos) == TokenType::LPipe {
        expression_is_local(ts, other, n, pos + 1, m);
    }
}

#[verifier::rlimit(80)]
proof fn callback_pipe_is_local(
    ts: Seq<TokenView>, other: Seq<TokenView>, n: nat,
    pos: nat,
    m: MacroMap,
    args: Seq<CallArgView>,
)
    requires
        ready(ts, pos, m),
        agree(ts, other, n),
        callback_pipe(ts, pos, m, args).pos < n,
    ensures
        callback_pipe(other, pos, m, args) == callback_pipe(ts, pos, m, args),
    decreases ts.len() - pos, 51nat,
{
    callback_pipe_keeps(ts, pos, m, args);
    if kind_at(ts, pos) == TokenType::LTilde {
        if kind_at(ts, pos + 1) == TokenType::LParen {
            parameters_keeps(ts, pos + 1, m);
        }
        let sig = if kind_at(ts, pos + 1) == TokenType::LParen {
            parameters(ts, pos + 1, m)
        } else {
            Step::ok(Signature { params: Seq::empty(), rest: None }, pos + 1, m)
        };
        if sig.carries_on(ts, pos + 1) {
            expression_keeps(ts, sig.pos, sig.macros);
        }
    }
    if kind_at(ts, pos) == TokenType::LTilde {
        if kind_at(ts, pos + 1) == TokenType::LParen {
            parameters_is_local(ts, other, n, pos + 1, m);
        }
        let sig = if kind_at(ts, pos + 1) == TokenType::LParen {
            parameters(ts, pos + 1, m)
        } else {
            Step::ok(Signature { params: Seq::empty(), rest: None }, pos + 1, m)
        };
        if sig.carries_on(ts, pos + 1) {
            expression_is_local(ts, other, n, sig.pos, sig.macros);
        }
    }
}

#[verifier::rlimit(80)]
proof fn parameters_is_local(ts: Seq<TokenView>, other: Seq<TokenView>, n: nat, pos: nat, m: MacroMap)
    requires
        ready(ts, pos, m),
        agree(ts, other, n),
        parameters(ts, pos, m).pos < n,
    ensures
        parameters(other, pos, m) == parameters(ts, pos, m),
{
    parameters_keeps(ts, pos, m);
    if kind_at(ts, pos) == TokenType::LParen && kind_at(ts, pos + 1) != TokenType::RParen {
        parameter_items_keeps(ts, pos + 1, m, Signature { params: Seq::empty(), rest: None });
    }
    if kind_at(ts, pos) == TokenType::LParen && kind_at(ts, pos + 1) != TokenType::RParen {
        parameter_items_is_local(ts, other, n, pos + 1, m, Signature { params: Seq::empty(), rest: None });
    }
}

#[verifier::rlimit(80)]
proof fn parameter_items_is_local(ts: Seq<TokenView>, other: Seq<TokenView>, n: nat, pos: nat, m: MacroMap, sig: Signature)
    requires
        ready(ts, pos, m),
        agree(ts, other, n),
        parameter_items(ts, pos, m, sig).pos < n,
    ensures
        parameter_items(other, pos, m, sig) == parameter_items(ts, pos, m, sig),
    decreases ts.len() - pos,
{
    parameter_items_keeps(ts, pos, m, sig);
    if sig.rest is None {
        let kind = kind_at(ts, pos);
        let variadic = kind == TokenType::Id && kind_at(ts, pos + 1) == TokenType::Plus;
        let plain = (kind == TokenType::Id && !variadic) || kind == TokenType::Underscore;
        let grown = Signature {
            params: if plain {
                sig.params.push(token_at(ts, pos))
            } else {
                sig.params
            },
            rest: if variadic {
                Some(token_at(ts, pos))
            } else {
                None
            },
        };
        let next = if variadic {
            pos + 2
        } else if plain {
            pos + 1
        } else {
            pos
        };
        if kind_at(ts, next) == TokenType::Comma {
            parameter_items_keeps(ts, next + 1, m, grown);
        }
    }
    if sig.rest is None {
        let kind = kind_at(ts, pos);
        let variadic = kind == TokenType::Id && kind_at(ts, pos + 1) == TokenType::Plus;
        let plain = (kind == TokenType::Id && !variadic) || kind == TokenType::Underscore;
        let grown = Signature {
            params: if plain {
                sig.params.push(token_at(ts, pos))
            } else {
                sig.params
            },
            rest: if variadic {
                Some(token_at(ts, pos))
            } else {
                None
            },
        };
        let next = if variadic {
            pos + 2
        } else if plain {
            pos + 1
        } else {
            pos
        };
        if kind_at(ts, next) == TokenType::Comma {
            parameter_items_is_local(ts, other, n, next + 1, m, grown);
        }
    }
}

#[verifier::rlimit(80)]
proof fn primary_is_local(ts: Seq<TokenView>, other: Seq<TokenView>, n: nat, pos: nat, m: MacroMap)
    requires
        ready(ts, pos, m),
        agree(ts, other, n),
        primary(ts, pos, m).pos < n,
    ensures
        primary(other, pos, m) == primary(ts, pos, m),
    decreases ts.len() - pos, 12nat,
{
    primary_keeps(ts, pos, m);
    let kind = kind_at(ts, pos);
    let token = token_at(ts, pos);
    if kind == TokenType::LParen {
        group_keeps(ts, pos + 1, m);
    } else if kind == TokenType::LBracket {
        list_literal_keeps(ts, pos + 1, m, token);
    } else if kind == TokenType::LBrace {
        braces_keeps(ts, pos + 1, m, token);
    } else if kind == TokenType::MinusGT {
        lambda_keeps(ts, pos + 1, m);
    } else if kind == TokenType::Func {
        function_keeps(ts, pos, m, false, Seq::empty());
    } else if kind == TokenType::Public {
        function_keeps(ts, pos + 1, m, true, Seq::empty());
    } else if kind == TokenType::At {
        decorated_keeps(ts, pos + 1, m);
    } else if kind == TokenType::Match {
        match_expression_keeps(ts, pos + 1, m, token);
    } else if kind == TokenType::Try {
        try_expression_keeps(ts, pos + 1, m, token);
    } else if kind == TokenType::Unsafe {
        wrapped_keeps(ts, pos + 1, m, token);
    } else if kind == TokenType::Dollar {
        wrapped_keeps(ts, pos + 1, m, token);
    } else if kind == TokenType::Def {
        define_macro_keeps(ts, pos + 1, m);
    } else if kind == TokenType::Redef {
        redefine_macro_keeps(ts, pos + 1, m);
    }
    let kind = kind_at(ts, pos);
    let token = token_at(ts, pos);
    if kind == TokenType::LParen {
        group_is_local(ts, other, n, pos + 1, m);
    } else if kind == TokenType::LBracket {
        list_literal_is_local(ts, other, n, pos + 1, m, token);
    } else if kind == TokenType::LBrace {
        braces_is_local(ts, other, n, pos + 1, m, token);
    } else if kind == TokenType::MinusGT {
        lambda_is_local(ts, other, n, pos + 1, m);
    } else if kind == TokenType::Func {
        function_is_local(ts, other, n, pos, m, false, Seq::empty());
    } else if kind == TokenType::Public {
        function_is_local(ts, other, n, pos + 1, m, true, Seq::empty());
    } else if kind == TokenType::At {
        decorated_is_local(ts, other, n, pos + 1, m);
    } else if kind == TokenType::Match {
        match_expression_is_local(ts, other, n, pos + 1, m, token);
    } else if kind == TokenType::Try {
        try_expression_is_local(ts, other, n, pos + 1, m, token);
    } else if kind == TokenType::Unsafe {
        wrapped_is_local(ts, other, n, pos + 1, m, token);
    } else if kind == TokenType::Dollar {
        wrapped_is_local(ts, other, n, pos + 1, m, token);
    } else if kind == TokenType::Def {
        define_macro_is_local(ts, other, n, pos + 1, m);
    } else if kind == TokenType::Redef {
        redefine_macro_is_local(ts, other, n, pos + 1, m);
    }
}

#[verifier::rlimit(80)]
proof fn group_is_local(ts: Seq<TokenView>, other: Seq<TokenView>, n: nat, pos: nat, m: MacroMap)
    requires
        ready(ts, pos, m),
        agree(ts, other, n),
        group(ts, pos, m).pos < n,
    ensures
        group(other, pos, m) == group(ts, pos, m),
    decreases ts.len() - pos, 51nat,
{
    group_keeps(ts, pos, m);
    expression_keeps(ts, pos, m);
    expression_is_local(ts, other, n, pos, m);
}

#[verifier::rlimit(80)]
proof fn list_literal_is_local(ts: Seq<TokenView>, other: Seq<TokenView>, n: nat, pos: nat, m: MacroMap, mark: TokenView)
    requires
        ready(ts, pos, m),
        agree(ts, other, n),
        list_literal(ts, pos, m, mark).pos < n,
    ensures
        list_literal(other, pos, m, mark) == list_literal(ts, pos, m, mark),
    decreases ts.len() - pos, 51nat,
{
    list_literal_keeps(ts, pos, m, mark);
    list_items_keeps(ts, pos, m, Seq::empty());
    list_items_is_local(ts, other, n, pos, m, Seq::empty());
}

#[verifier::rlimit(80)]
proof fn list_items_is_local(ts: Seq<TokenView>, other: Seq<TokenView>, n: nat, pos: nat, m: MacroMap, acc: Seq<ExprView>)
    requires
        ready(ts, pos, m),
        agree(ts, other, n),
        list_items(ts, pos, m, acc).pos < n,
    ensures
        list_items(other, pos, m, acc) == list_items(ts, pos, m, acc),
    decreases ts.len() - pos, 50nat,
{
    list_items_keeps(ts, pos, m, acc);
    if !(kind_at(ts, pos) == TokenType::RBracket || at_end(ts, pos)) {
        expression_keeps(ts, pos, m);
        let item = expression(ts, pos, m);
        if item.carries_on(ts, pos) && kind_at(ts, item.pos) == TokenType::Comma {
            list_items_keeps(ts, item.pos + 1, item.macros, acc.push(item.value()));
        }
    }
    if !(kind_at(ts, pos) == TokenType::RBracket || at_end(ts, pos)) {
        expression_is_local(ts, other, n, pos, m);
        let item = expression(ts, pos, m);
        if item.carries_on(ts, pos) && kind_at(ts, item.pos) == TokenType::Comma {
            list_items_is_local(ts, other, n, item.pos + 1, item.macros, acc.push(item.value()));
        }
    }
}

#[verifier::rlimit(80)]
proof fn braces_is_local(ts: Seq<TokenView>, other: Seq<TokenView>, n: nat, pos: nat, m: MacroMap, mark: TokenView)
    requires
        ready(ts, pos, m),
        agree(ts, other, n),
        braces(ts, pos, m, mark).pos < n,
    ensures
        braces(other, pos, m, mark) == braces(ts, pos, m, mark),
    decreases ts.len() - pos, 53nat,
{
    braces_keeps(ts, pos, m, mark);
    if kind_at(ts, pos) != TokenType::RBrace {
        expression_keeps(ts, pos, m);
        let first = expression(ts, pos, m);
        if first.carries_on(ts, pos) && !at_end(ts, first.pos) {
            if kind_at(ts, first.pos) == TokenType::Colon {
                object_literal_keeps(ts, first.pos + 1, first.macros, first.value());
            } else {
                block_keeps(ts, first.pos, first.macros, first.value());
            }
        }
    }
    if kind_at(ts, pos) != TokenType::RBrace {
        expression_is_local(ts, other, n, pos, m);
        let first = expression(ts, pos, m);
        if first.carries_on(ts, pos) && !at_end(ts, first.pos) {
            if kind_at(ts, first.pos) == TokenType::Colon {
                object_literal_is_local(ts, other, n, first.pos + 1, first.macros, first.value());
            } else {
                block_is_local(ts, other, n, first.pos, first.macros, first.value());
            }
        }
    }
}

#[verifier::rlimit(80)]
proof fn object_literal_is_local(ts: Seq<TokenView>, other: Seq<TokenView>, n: nat, pos: nat, m: MacroMap, key: ExprView)
    requires
        ready(ts, pos, m),
        agree(ts, other, n),
        object_literal(ts, pos, m, key).pos < n,
    ensures
        object_literal(other, pos, m, key) == object_literal(ts, pos, m, key),
    decreases ts.len() - pos, 52nat,
{
    object_literal_keeps(ts, pos, m, key);
    match key {
        ExprView::Variable { name } => {
            expression_keeps(ts, pos, m);
            let value = expression(ts, pos, m);
            if value.carries_on(ts, pos) && kind_at(ts, value.pos) == TokenType::Comma {
                object_entries_keeps(
                    ts,
                    value.pos + 1,
                    value.macros,
                    Entries { keys: seq![name], values: seq![value.value()] },
                );
            }
        },
        _ => {},
    }
    match key {
        ExprView::Variable { name } => {
            expression_is_local(ts, other, n, pos, m);
            let value = expression(ts, pos, m);
            if value.carries_on(ts, pos) && kind_at(ts, value.pos) == TokenType::Comma {
                object_entries_is_local(ts, other, n,
                    value.pos + 1,
                    value.macros,
                    Entries { keys: seq![name], values: seq![value.value()] },
                );
            }
        },
        _ => {},
    }
}

#[verifier::rlimit(80)]
proof fn object_entries_is_local(ts: Seq<TokenView>, other: Seq<TokenView>, n: nat, pos: nat, m: MacroMap, acc: Entries)
    requires
        ready(ts, pos, m),
        agree(ts, other, n),
        object_entries(ts, pos, m, acc).pos < n,
    ensures
        object_entries(other, pos, m, acc) == object_entries(ts, pos, m, acc),
    decreases ts.len() - pos, 50nat,
{
    object_entries_keeps(ts, pos, m, acc);
    if !(kind_at(ts, pos) == TokenType::RBrace || at_end(ts, pos)) && kind_at(ts, pos)
        == TokenType::Id && kind_at(ts, pos + 1) == TokenType::Colon {
        expression_keeps(ts, pos + 2, m);
        let value = expression(ts, pos + 2, m);
        if value.carries_on(ts, pos + 2) && kind_at(ts, value.pos) == TokenType::Comma {
            object_entries_keeps(
                ts,
                value.pos + 1,
                value.macros,
                Entries {
                    keys: acc.keys.push(token_at(ts, pos)),
                    values: acc.values.push(value.value()),
                },
            );
        }
    }
    if !(kind_at(ts, pos) == TokenType::RBrace || at_end(ts, pos)) && kind_at(ts, pos)
        == TokenType::Id && kind_at(ts, pos + 1) == TokenType::Colon {
        expression_is_local(ts, other, n, pos + 2, m);
        let value = expression(ts, pos + 2, m);
        if value.carries_on(ts, pos + 2) && kind_at(ts, value.pos) == TokenType::Comma {
            object_entries_is_local(ts, other, n,
                value.pos + 1,
                value.macros,
                Entries {
                    keys: acc.keys.push(token_at(ts, pos)),
                    values: acc.values.push(value.value()),
                },
            );
        }
    }
}

#[verifier::rlimit(80)]
proof fn block_is_local(ts: Seq<TokenView>, other: Seq<TokenView>, n: nat, pos: nat, m: MacroMap, first: ExprView)
    requires
        ready(ts, pos, m),
        agree(ts, other, n),
        block(ts, pos, m, first).pos < n,
    ensures
        block(other, pos, m, first) == block(ts, pos, m, first),
    decreases ts.len() - pos, 51nat,
{
    block_keeps(ts, pos, m, first);
    block_items_keeps(ts, pos, m, seq![first]);
    block_items_is_local(ts, other, n, pos, m, seq![first]);
}

#[verifier::rlimit(80)]
proof fn block_items_is_local(ts: Seq<TokenView>, other: Seq<TokenView>, n: nat, pos: nat, m: MacroMap, acc: Seq<ExprView>)
    requires
        ready(ts, pos, m),
        agree(ts, other, n),
        block_items(ts, pos, m, acc).pos < n,
    ensures
        block_items(other, pos, m, acc) == block_items(ts, pos, m, acc),
    decreases ts.len() - pos, 50nat,
{
    block_items_keeps(ts, pos, m, acc);
    if !(kind_at(ts, pos) == TokenType::RBrace || at_end(ts, pos)) {
        expression_keeps(ts, pos, m);
        let item = expression(ts, pos, m);
        if item.moves_on(ts, pos) {
            block_items_keeps(ts, item.pos, item.macros, acc.push(item.value()));
        }
    }
    if !(kind_at(ts, pos) == TokenType::RBrace || at_end(ts, pos)) {
        expression_is_local(ts, other, n, pos, m);
        let item = expression(ts, pos, m);
        if item.moves_on(ts, pos) {
            block_items_is_local(ts, other, n, item.pos, item.macros, acc.push(item.value()));
        }
    }
}

#[verifier::rlimit(80)]
proof fn lambda_is_local(ts: Seq<TokenView>, other: Seq<TokenView>, n: nat, pos: nat, m: MacroMap)
    requires
        ready(ts, pos, m),
        agree(ts, other, n),
        lambda(ts, pos, m).pos < n,
    ensures
        lambda(other, pos, m) == lambda(ts, pos, m),
    decreases ts.len() - pos, 51nat,
{
    lambda_keeps(ts, pos, m);
    expression_keeps(ts, pos, m);
    expression_is_local(ts, other, n, pos, m);
}

#[verifier::rlimit(80)]
proof fn function_is_local(
    ts: Seq<TokenView>, other: Seq<TokenView>, n: nat,
    pos: nat,
    m: MacroMap,
    public: bool,
    decorators: Seq<DecoratorView>,
)
    requires
        ready(ts, pos, m),
        agree(ts, other, n),
        function(ts, pos, m, public, decorators).pos < n,
    ensures
        function(other, pos, m, public, decorators) == function(ts, pos, m, public, decorators),
    decreases ts.len() - pos, 11nat,
{
    function_keeps(ts, pos, m, public, decorators);
    let marked = !public && kind_at(ts, pos) == TokenType::Public;
    let start = if marked {
        pos + 1
    } else {
        pos
    };
    if kind_at(ts, start) == TokenType::Func {
        let named = kind_at(ts, start + 1) == TokenType::Id;
        let open = if named {
            start + 2
        } else {
            start + 1
        };
        parameters_keeps(ts, open, m);
        let sig = parameters(ts, open, m);
        if sig.carries_on(ts, open) {
            expression_keeps(ts, sig.pos, sig.macros);
        }
    }
    let marked = !public && kind_at(ts, pos) == TokenType::Public;
    let start = if marked {
        pos + 1
    } else {
        pos
    };
    if kind_at(ts, start) == TokenType::Func {
        let named = kind_at(ts, start + 1) == TokenType::Id;
        let open = if named {
            start + 2
        } else {
            start + 1
        };
        parameters_is_local(ts, other, n, open, m);
        let sig = parameters(ts, open, m);
        if sig.carries_on(ts, open) {
            expression_is_local(ts, other, n, sig.pos, sig.macros);
        }
    }
}

#[verifier::rlimit(80)]
proof fn decorated_is_local(ts: Seq<TokenView>, other: Seq<TokenView>, n: nat, pos: nat, m: MacroMap)
    requires
        ready(ts, pos, m),
        agree(ts, other, n),
        decorated(ts, pos, m).pos < n,
    ensures
        decorated(other, pos, m) == decorated(ts, pos, m),
    decreases ts.len() - pos, 55nat,
{
    decorated_keeps(ts, pos, m);
    if kind_at(ts, pos) == TokenType::LBracket {
        decorators_keeps(ts, pos + 1, m, Seq::empty());
        let list = decorators(ts, pos + 1, m, Seq::empty());
        if list.carries_on(ts, pos + 1) && kind_at(ts, list.pos) == TokenType::RBracket {
            function_keeps(ts, list.pos + 1, list.macros, false, list.value());
        }
    }
    if kind_at(ts, pos) == TokenType::LBracket {
        decorators_is_local(ts, other, n, pos + 1, m, Seq::empty());
        let list = decorators(ts, pos + 1, m, Seq::empty());
        if list.carries_on(ts, pos + 1) && kind_at(ts, list.pos) == TokenType::RBracket {
            function_is_local(ts, other, n, list.pos + 1, list.macros, false, list.value());
        }
    }
}

#[verifier::rlimit(80)]
proof fn decorators_is_local(ts: Seq<TokenView>, other: Seq<TokenView>, n: nat, pos: nat, m: MacroMap, acc: Seq<DecoratorView>)
    requires
        ready(ts, pos, m),
        agree(ts, other, n),
        decorators(ts, pos, m, acc).pos < n,
    ensures
        decorators(other, pos, m, acc) == decorators(ts, pos, m, acc),
    decreases ts.len() - pos, 54nat,
{
    decorators_keeps(ts, pos, m, acc);
    if kind_at(ts, pos) != TokenType::RBracket && kind_at(ts, pos) == TokenType::Id {
        let name = token_at(ts, pos);
        let next = pos + 1;
        if kind_at(ts, next) == TokenType::LParen {
            arguments_keeps(ts, next + 1, m, Seq::empty());
            let args = arguments(ts, next + 1, m, Seq::empty());
            if args.carries_on(ts, next + 1) && kind_at(ts, args.pos) == TokenType::RParen
                && kind_at(ts, args.pos + 1) == TokenType::Comma {
                decorators_keeps(
                    ts,
                    args.pos + 2,
                    args.macros,
                    acc.push(DecoratorView { name, args: args.value() }),
                );
            }
        } else if kind_at(ts, next) == TokenType::Comma {
            decorators_keeps(ts, next + 1, m, acc.push(DecoratorView { name, args: Seq::empty() }));
        }
    }
    if kind_at(ts, pos) != TokenType::RBracket && kind_at(ts, pos) == TokenType::Id {
        let name = token_at(ts, pos);
        let next = pos + 1;
        if kind_at(ts, next) == TokenType::LParen {
            arguments_is_local(ts, other, n, next + 1, m, Seq::empty());
            let args = arguments(ts, next + 1, m, Seq::empty());
            if args.carries_on(ts, next + 1) && kind_at(ts, args.pos) == TokenType::RParen
                && kind_at(ts, args.pos + 1) == TokenType::Comma {
                decorators_is_local(ts, other, n,
                    args.pos + 2,
                    args.macros,
                    acc.push(DecoratorView { name, args: args.value() }),
                );
            }
        } else if kind_at(ts, next) == TokenType::Comma {
            decorators_is_local(ts, other, n, next + 1, m, acc.push(DecoratorView { name, args: Seq::empty() }));
        }
    }
}

#[verifier::rlimit(80)]
proof fn match_expression_is_local(ts: Seq<TokenView>, other: Seq<TokenView>, n: nat, pos: nat, m: MacroMap, mark: TokenView)
    requires
        ready(ts, pos, m),
        agree(ts, other, n),
        match_expression(ts, pos, m, mark).pos < n,
    ensures
        match_expression(other, pos, m, mark) == match_expression(ts, pos, m, mark),
    decreases ts.len() - pos, 51nat,
{
    match_expression_keeps(ts, pos, m, mark);
    expression_keeps(ts, pos, m);
    let cond = expression(ts, pos, m);
    if cond.carries_on(ts, pos) && kind_at(ts, cond.pos) == TokenType::LBrace {
        match_branches_keeps(ts, cond.pos + 1, cond.macros, Seq::empty());
    }
    expression_is_local(ts, other, n, pos, m);
    let cond = expression(ts, pos, m);
    if cond.carries_on(ts, pos) && kind_at(ts, cond.pos) == TokenType::LBrace {
        match_branches_is_local(ts, other, n, cond.pos + 1, cond.macros, Seq::empty());
    }
}

#[verifier::rlimit(80)]
proof fn match_branches_is_local(
    ts: Seq<TokenView>, other: Seq<TokenView>, n: nat,
    pos: nat,
    m: MacroMap,
    acc: Seq<MatchBranchView>,
)
    requires
        ready(ts, pos, m),
        agree(ts, other, n),
        match_branches(ts, pos, m, acc).pos < n,
    ensures
        match_branches(other, pos, m, acc) == match_branches(ts, pos, m, acc),
    decreases ts.len() - pos, 50nat,
{
    match_branches_keeps(ts, pos, m, acc);
    if kind_at(ts, pos) != TokenType::RBrace {
        expression_keeps(ts, pos, m);
        let target = expression(ts, pos, m);
        if target.carries_on(ts, pos) && kind_at(ts, target.pos) == TokenType::MinusGT {
            expression_keeps(ts, target.pos + 1, target.macros);
            let body = expression(ts, target.pos + 1, target.macros);
            if body.carries_on(ts, target.pos + 1) && kind_at(ts, body.pos) == TokenType::Comma {
                match_branches_keeps(
                    ts,
                    body.pos + 1,
                    body.macros,
                    acc.push(
                        MatchBranchView { target: target.value(), body: body.value() },
                    ),
                );
            }
        }
    }
    if kind_at(ts, pos) != TokenType::RBrace {
        expression_is_local(ts, other, n, pos, m);
        let target = expression(ts, pos, m);
        if target.carries_on(ts, pos) && kind_at(ts, target.pos) == TokenType::MinusGT {
            expression_is_local(ts, other, n, target.pos + 1, target.macros);
            let body = expression(ts, target.pos + 1, target.macros);
            if body.carries_on(ts, target.pos + 1) && kind_at(ts, body.pos) == TokenType::Comma {
                match_branches_is_local(ts, other, n,
                    body.pos + 1,
                    body.macros,
                    acc.push(
                        MatchBranchView { target: target.value(), body: body.value() },
                    ),
                );
            }
        }
    }
}

#[verifier::rlimit(80)]
proof fn try_expression_is_local(ts: Seq<TokenView>, other: Seq<TokenView>, n: nat, pos: nat, m: MacroMap, mark: TokenView)
    requires
        ready(ts, pos, m),
        agree(ts, other, n),
        try_expression(ts, pos, m, mark).pos < n,
    ensures
        try_expression(other, pos, m, mark) == try_expression(ts, pos, m, mark),
    decreases ts.len() - pos, 51nat,
{
    try_expression_keeps(ts, pos, m, mark);
    expression_keeps(ts, pos, m);
    let result = expression(ts, pos, m);
    if result.carries_on(ts, pos) {
        expression_keeps(ts, result.pos, result.macros);
        let handler = expression(ts, result.pos, result.macros);
        if handler.carries_on(ts, result.pos) && kind_at(ts, handler.pos) == TokenType::Else {
            expression_keeps(ts, handler.pos + 1, handler.macros);
        }
    }
    expression_is_local(ts, other, n, pos, m);
    let result = expression(ts, pos, m);
    if result.carries_on(ts, pos) {
        expression_is_local(ts, other, n, result.pos, result.macros);
        let handler = expression(ts, result.pos, result.macros);
        if handler.carries_on(ts, result.pos) && kind_at(ts, handler.pos) == TokenType::Else {
            expression_is_local(ts, other, n, handler.pos + 1, handler.macros);
        }
    }
}

#[verifier::rlimit(80)]
proof fn wrapped_is_local(ts: Seq<TokenView>, other: Seq<TokenView>, n: nat, pos: nat, m: MacroMap, mark: TokenView)
    requires
        ready(ts, pos, m),
        agree(ts, other, n),
        unsafe_expression(ts, pos, m, mark).pos < n,
        shell_expression(ts, pos, m, mark).pos < n,
    ensures
        unsafe_expression(other, pos, m, mark) == unsafe_expression(ts, pos, m, mark),
        shell_expression(other, pos, m, mark) == shell_expression(ts, pos, m, mark),
    decreases ts.len() - pos, 51nat,
{
    wrapped_keeps(ts, pos, m, mark);
    expression_keeps(ts, pos, m);
    expression_is_local(ts, other, n, pos, m);
}

#[verifier::rlimit(80)]
proof fn define_macro_is_local(ts: Seq<TokenView>, other: Seq<TokenView>, n: nat, pos: nat, m: MacroMap)
    requires
        ready(ts, pos, m),
        agree(ts, other, n),
        define_macro(ts, pos, m).pos < n,
    ensures
        define_macro(other, pos, m) == define_macro(ts, pos, m),
    decreases ts.len() - pos, 51nat,
{
    define_macro_keeps(ts, pos, m);
    if kind_at(ts, pos) == TokenType::Id {
        expression_keeps(ts, pos + 1, m);
    }
    if kind_at(ts, pos) == TokenType::Id {
        expression_is_local(ts, other, n, pos + 1, m);
    }
}

#[verifier::rlimit(80)]
proof fn redefine_macro_is_local(ts: Seq<TokenView>, other: Seq<TokenView>, n: nat, pos: nat, m: MacroMap)
    requires
        ready(ts, pos, m),
        agree(ts, other, n),
        redefine_macro(ts, pos, m).pos < n,
    ensures
        redefine_macro(other, pos, m) == redefine_macro(ts, pos, m),
    decreases ts.len() - pos, 51nat,
{
    redefine_macro_keeps(ts, pos, m);
    if kind_at(ts, pos) == TokenType::Id {
        expression_keeps(ts, pos + 1, m);
    }
    if kind_at(ts, pos) == TokenType::Id {
        expression_is_local(ts, other, n, pos + 1, m);
    }
}

proof fn lemma_skip_goes_forward(ts: Seq<TokenView>, pos: nat)
    ensures
        pos <= skip_to_restart(ts, pos),
    decreases ts.len() - pos,
{
    if !at_end(ts, pos) && !is_restart(kind_at(ts, pos)) {
        lemma_skip_goes_forward(ts, pos + 1);
    }
}

/// Skipping to a restart point is local.
pub proof fn skip_is_local(ts: Seq<TokenView>, other: Seq<TokenView>, n: nat, pos: nat)
    requires
        agree(ts, other, n),
        skip_to_restart(ts, pos) < n,
    ensures
        skip_to_restart(other, pos) == skip_to_restart(ts, pos),
    decreases ts.len() - pos,
{
    lemma_skip_goes_forward(ts, pos);
    if !at_end(ts, pos) && !is_restart(kind_at(ts, pos)) {
        skip_is_local(ts, other, n, pos + 1);
    }
}

/// One turn of the top-level loop is local: where it ends before the
/// streams part ways, it yields the same on both.
pub proof fn top_level_is_local(ts: Seq<TokenView>, other: Seq<TokenView>, n: nat, pos: nat, m: MacroMap)
    requires
        ready(ts, pos, m),
        agree(ts, other, n),
        top_level(ts, pos, m).pos < n,
    ensures
        top_level(other, pos, m) == top_level(ts, pos, m),
{
    expression_keeps(ts, pos, m);
    let step = expression(ts, pos, m);
    if step.out is Err && !at_end(ts, step.pos) {
        skip_keeps(ts, step.pos + 1);
    }
    expression_is_local(ts, other, n, pos, m);
    if step.out is Err && !at_end(ts, step.pos) {
        skip_is_local(ts, other, n, step.pos + 1);
    }
}

/// Whether the form at `pos` is settled for all that may come: every
/// stream that agrees with `ts` in all tokens but the last gives the form
/// that `ts` gives.
#[verifier::opaque]
pub open spec fn settled_for_all(ts: Seq<TokenView>, pos: nat, m: MacroMap) -> bool {
    forall|whole: Seq<TokenView>|
        agree(ts, whole, (ts.len() - 1) as nat) ==> #[trigger] top_level(whole, pos, m) == top_level(
            ts,
            pos,
            m,
        )
}

/// A form that ends before the last token of a stream is settled for all
/// that may come after the tokens before the last.
pub proof fn form_is_settled(ts: Seq<TokenView>, pos: nat, m: MacroMap)
    requires
        ready(ts, pos, m),
        top_level(ts, pos, m).pos + 1 < ts.len(),
    ensures
        settled_for_all(ts, pos, m),
{
    reveal(settled_for_all);
    let n = (ts.len() - 1) as nat;
    assert forall|whole: Seq<TokenView>| agree(ts, whole, n) implies #[trigger] top_level(
        whole,
        pos,
        m,
    ) == top_level(ts, pos, m) by {
        top_level_is_local(ts, whole, n, pos, m);
    }
}

/// What being settled says of one stream that goes on from the tokens
/// taken.
pub proof fn settled_form_stays(ts: Seq<TokenView>, whole: Seq<TokenView>, pos: nat, m: MacroMap)
    requires
        settled_for_all(ts, pos, m),
        agree(ts, whole, (ts.len() - 1) as nat),
    ensures
        top_level(whole, pos, m) == top_level(ts, pos, m),
{
    reveal(settled_for_all);
}

} // verus!
