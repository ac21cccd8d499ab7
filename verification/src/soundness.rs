//! The rules keep to the stream. On a stream that ends in an end-of-file
//! token, with the cursor on a token, no rule moves the cursor backwards
//! or past the last token; a rule that recognises a tree consumes at least
//! one token; and no rule yields the end marker or lets a macro stand for
//! it. So where a rule of the grammar asks whether a step carries on, the
//! answer is yes exactly when the step succeeded.

use vstd::prelude::*;
use crate::ast::{CallArgView, ExprView, MatchBranchView};
use crate::error::ErrorView;
use crate::grammar::{
    arguments, assignment, at_end, binary, binary_tail, block, block_items, braces, call,
    callback_pipe, combine, decorated, decorators, define_macro, end_free, expression, finish_call,
    function, group, is_binding, is_compound, is_operator, is_restart, kind_at, lambda, level_rank,
    list_items, list_literal, match_branches, match_expression, more_arguments, node_stream,
    object_entries, object_literal, operand, parameter_items, parameters, parsed, postfix, primary,
    program, redefine_macro, shell_expression, skip_to_restart, ternary, token_at, top_level,
    trailing_pipe, try_expression, unary, unsafe_expression, well_formed, with_optional,
    DecoratorView, Entries, Level, MacroMap, Signature, Step,
};
use crate::token::{TokenType, TokenView};

verus! {

/// A state from which a rule may start: the stream ends in an end-of-file
/// token, the cursor stands on a token, and no macro stands for the end
/// marker.
pub open spec fn ready(ts: Seq<TokenView>, pos: nat, m: MacroMap) -> bool {
    well_formed(ts) && pos < ts.len() && end_free(m)
}

/// The step `s`, taken from `pos`, kept to the stream: the cursor neither
/// went back nor left the stream, and no macro stands for the end marker.
pub open spec fn kept<T>(ts: Seq<TokenView>, pos: nat, s: Step<T>) -> bool {
    pos <= s.pos < ts.len() && end_free(s.macros)
}

/// The step `s`, taken from `pos`, kept to the stream, and a tree that it
/// recognised is not the end marker.
pub open spec fn kept_node(ts: Seq<TokenView>, pos: nat, s: Step<ExprView>) -> bool {
    kept(ts, pos, s) && (s.out matches Ok(e) ==> !(e is End))
}

/// The step `s`, taken from `pos`, kept to the stream, and if it recognised
/// a tree, it consumed at least one token and the tree is not the end
/// marker.
pub open spec fn kept_tree(ts: Seq<TokenView>, pos: nat, s: Step<ExprView>) -> bool {
    kept_node(ts, pos, s) && (s.out is Ok ==> pos < s.pos)
}

/// An expression keeps to the stream.
#[verifier::rlimit(80)]
pub proof fn expression_keeps(ts: Seq<TokenView>, pos: nat, m: MacroMap)
    requires
        ready(ts, pos, m),
    ensures
        kept_tree(ts, pos, expression(ts, pos, m)),
    decreases ts.len() - pos, 40nat,
{
    assignment_keeps(ts, pos, m);
}

#[verifier::rlimit(80)]
pub proof fn assignment_keeps(ts: Seq<TokenView>, pos: nat, m: MacroMap)
    requires
        ready(ts, pos, m),
    ensures
        kept_tree(ts, pos, assignment(ts, pos, m)),
    decreases ts.len() - pos, 39nat,
{
    binary_keeps(ts, pos, m, Level::Or);
    let target = binary(ts, pos, m, Level::Or);
    if target.carries_on(ts, pos) {
        let kind = kind_at(ts, target.pos);
        if is_binding(kind) || is_compound(kind) {
            assignment_keeps(ts, target.pos + 1, target.macros);
        }
    }
}

#[verifier::rlimit(80)]
pub proof fn operand_keeps(ts: Seq<TokenView>, pos: nat, m: MacroMap, level: Level)
    requires
        ready(ts, pos, m),
    ensures
        kept_tree(ts, pos, operand(ts, pos, m, level)),
    decreases ts.len() - pos, 21 + 2 * level_rank(level),
{
    match level {
        Level::Factor => unary_keeps(ts, pos, m),
        Level::Term => binary_keeps(ts, pos, m, Level::Factor),
        Level::Comparison => binary_keeps(ts, pos, m, Level::Term),
        Level::Equality => binary_keeps(ts, pos, m, Level::Comparison),
        Level::And => binary_keeps(ts, pos, m, Level::Equality),
        Level::Or => binary_keeps(ts, pos, m, Level::And),
    }
}

#[verifier::rlimit(80)]
pub proof fn binary_keeps(ts: Seq<TokenView>, pos: nat, m: MacroMap, level: Level)
    requires
        ready(ts, pos, m),
    ensures
        kept_tree(ts, pos, binary(ts, pos, m, level)),
    decreases ts.len() - pos, 22 + 2 * level_rank(level),
{
    operand_keeps(ts, pos, m, level);
    let first = operand(ts, pos, m, level);
    if first.carries_on(ts, pos) {
        binary_tail_keeps(ts, first.pos, first.macros, level, first.value());
    }
}

#[verifier::rlimit(80)]
pub proof fn binary_tail_keeps(ts: Seq<TokenView>, pos: nat, m: MacroMap, level: Level, left: ExprView)
    requires
        ready(ts, pos, m),
        !(left is End),
    ensures
        kept_node(ts, pos, binary_tail(ts, pos, m, level, left)),
    decreases ts.len() - pos, 20nat,
{
    if is_operator(level, kind_at(ts, pos)) {
        operand_keeps(ts, pos + 1, m, level);
        let right = operand(ts, pos + 1, m, level);
        if right.carries_on(ts, pos + 1) {
            binary_tail_keeps(
                ts,
                right.pos,
                right.macros,
                level,
                combine(level, left, right.value(), token_at(ts, pos)),
            );
        }
    }
}

#[verifier::rlimit(80)]
pub proof fn unary_keeps(ts: Seq<TokenView>, pos: nat, m: MacroMap)
    requires
        ready(ts, pos, m),
    ensures
        kept_tree(ts, pos, unary(ts, pos, m)),
    decreases ts.len() - pos, 15nat,
{
    let kind = kind_at(ts, pos);
    if kind == TokenType::Bang || kind == TokenType::Not || kind == TokenType::Minus {
        unary_keeps(ts, pos + 1, m);
    } else {
        call_keeps(ts, pos, m, None);
    }
}

#[verifier::rlimit(80)]
pub proof fn call_keeps(ts: Seq<TokenView>, pos: nat, m: MacroMap, piped: Option<ExprView>)
    requires
        ready(ts, pos, m),
    ensures
        kept_tree(ts, pos, call(ts, pos, m, piped)),
    decreases ts.len() - pos, 14nat,
{
    primary_keeps(ts, pos, m);
    let head = primary(ts, pos, m);
    if head.carries_on(ts, pos) {
        postfix_keeps(ts, head.pos, head.macros, head.value(), piped);
    }
}

#[verifier::rlimit(80)]
pub proof fn postfix_keeps(
    ts: Seq<TokenView>,
    pos: nat,
    m: MacroMap,
    expr: ExprView,
    piped: Option<ExprView>,
)
    requires
        ready(ts, pos, m),
        !(expr is End),
    ensures
        kept_node(ts, pos, postfix(ts, pos, m, expr, piped)),
    decreases ts.len() - pos, 13nat,
{
    let kind = kind_at(ts, pos);
    if kind == TokenType::LParen {
        finish_call_keeps(ts, pos + 1, m, expr, piped);
        let made = finish_call(ts, pos + 1, m, expr, piped);
        if made.carries_on(ts, pos + 1) {
            postfix_keeps(ts, made.pos, made.macros, made.value(), None);
        }
    } else if kind == TokenType::Dot {
        binary_keeps(ts, pos + 1, m, Level::Or);
        let member = binary(ts, pos + 1, m, Level::Or);
        if member.carries_on(ts, pos + 1) {
            postfix_keeps(
                ts,
                member.pos,
                member.macros,
                ExprView::Get {
                    instance: Box::new(expr),
                    value: Box::new(member.value()),
                    token: token_at(ts, pos),
                },
                piped,
            );
        }
    } else if kind == TokenType::RPipe {
        call_keeps(ts, pos + 1, m, Some(expr));
    } else if kind == TokenType::Question {
        ternary_keeps(ts, pos + 1, m, expr, token_at(ts, pos));
        let made = ternary(ts, pos + 1, m, expr, token_at(ts, pos));
        if made.carries_on(ts, pos + 1) {
            postfix_keeps(ts, made.pos, made.macros, made.value(), piped);
        }
    }
}

#[verifier::rlimit(80)]
pub proof fn ternary_keeps(ts: Seq<TokenView>, pos: nat, m: MacroMap, cond: ExprView, mark: TokenView)
    requires
        ready(ts, pos, m),
    ensures
        kept_tree(ts, pos, ternary(ts, pos, m, cond, mark)),
    decreases ts.len() - pos, 51nat,
{
    expression_keeps(ts, pos, m);
    let yes = expression(ts, pos, m);
    if yes.carries_on(ts, pos) && kind_at(ts, yes.pos) == TokenType::Colon {
        expression_keeps(ts, yes.pos + 1, yes.macros);
    }
}

#[verifier::rlimit(80)]
pub proof fn finish_call_keeps(
    ts: Seq<TokenView>,
    pos: nat,
    m: MacroMap,
    callee: ExprView,
    piped: Option<ExprView>,
)
    requires
        ready(ts, pos, m),
    ensures
        kept_tree(ts, pos, finish_call(ts, pos, m, callee, piped)),
    decreases ts.len() - pos, 53nat,
{
    let first = match piped {
        Some(p) => seq![CallArgView::Positional(p)],
        None => Seq::empty(),
    };
    arguments_keeps(ts, pos, m, first);
    let args = arguments(ts, pos, m, first);
    if args.carries_on(ts, pos) && kind_at(ts, args.pos) == TokenType::RParen {
        assert(args.pos + 1 < ts.len());
        trailing_pipe_keeps(ts, args.pos + 1, args.macros, args.value());
        let trailing = trailing_pipe(ts, args.pos + 1, args.macros, args.value());
        if trailing.carries_on(ts, args.pos + 1) {
            callback_pipe_keeps(ts, trailing.pos, trailing.macros, trailing.value());
            let all = callback_pipe(ts, trailing.pos, trailing.macros, trailing.value());
            assert(kept(ts, trailing.pos, all));
            assert(pos < all.pos);
        } else {
            assert(trailing.out is Err);
        }
    }
}

#[verifier::rlimit(80)]
pub proof fn arguments_keeps(
    ts: Seq<TokenView>,
    pos: nat,
    m: MacroMap,
    acc: Seq<CallArgView>,
)
    requires
        ready(ts, pos, m),
    ensures
        kept(ts, pos, arguments(ts, pos, m, acc)),
    decreases ts.len() - pos, 52nat,
{
    if kind_at(ts, pos) != TokenType::RParen {
        more_arguments_keeps(ts, pos, m, acc);
    }
}

#[verifier::rlimit(80)]
pub proof fn more_arguments_keeps(
    ts: Seq<TokenView>,
    pos: nat,
    m: MacroMap,
    acc: Seq<CallArgView>,
)
    requires
        ready(ts, pos, m),
    ensures
        kept(ts, pos, more_arguments(ts, pos, m, acc)),
    decreases ts.len() - pos, 51nat,
{
    let spread = kind_at(ts, pos) == TokenType::Ellipsis;
    let start = if spread {
        pos + 1
    } else {
        pos
    };
    expression_keeps(ts, start, m);
    let arg = expression(ts, start, m);
    if arg.carries_on(ts, start) && kind_at(ts, arg.pos) == TokenType::Comma {
        let grown = acc.push(
            if spread {
                CallArgView::Unpacking(arg.value())
            } else {
                CallArgView::Positional(arg.value())
            },
        );
        more_arguments_keeps(ts, arg.pos + 1, arg.macros, grown);
    }
}

#[verifier::rlimit(80)]
pub proof fn trailing_pipe_keeps(
    ts: Seq<TokenView>,
    pos: nat,
    m: MacroMap,
    args: Seq<CallArgView>,
)
    requires
        ready(ts, pos, m),
    ensures
        kept(ts, pos, trailing_pipe(ts, pos, m, args)),
    decreases ts.len() - pos, 51nat,
{
    if kind_at(ts, pos) == TokenType::LPipe {
        expression_keeps(ts, pos + 1, m);
    }
}

#[verifier::rlimit(80)]
pub proof fn callback_pipe_keeps(
    ts: Seq<TokenView>,
    pos: nat,
    m: MacroMap,
    args: Seq<CallArgView>,
)
    requires
        ready(ts, pos, m),
    ensures
        kept(ts, pos, callback_pipe(ts, pos, m, args)),
    decreases ts.len() - pos, 51nat,
{
    if kind_at(ts, pos) == TokenType::LTilde {
        if kind_at(ts, pos + 1) == TokenType::LParen {
            parameters_keeps(ts, pos + 1, m);
        }
        let sig = if kind_at(ts, pos + 1) == TokenType::LParen {
            parameters(ts, pos + 1, m)
        } else {
            Step::ok(Signature { params: Seq::empty(), rest: None }, pos + 1, m)
        };
        if sig.carries_on(ts, pos + 1) {
            expression_keeps(ts, sig.pos, sig.macros);
        }
    }
}

/// A parameter list keeps to the stream.
#[verifier::rlimit(80)]
pub proof fn parameters_keeps(ts: Seq<TokenView>, pos: nat, m: MacroMap)
    requires
        ready(ts, pos, m),
    ensures
        kept(ts, pos, parameters(ts, pos, m)),
{
    if kind_at(ts, pos) == TokenType::LParen && kind_at(ts, pos + 1) != TokenType::RParen {
        parameter_items_keeps(ts, pos + 1, m, Signature { params: Seq::empty(), rest: None });
    }
}

#[verifier::rlimit(80)]
pub proof fn parameter_items_keeps(ts: Seq<TokenView>, pos: nat, m: MacroMap, sig: Signature)
    requires
        ready(ts, pos, m),
    ensures
        kept(ts, pos, parameter_items(ts, pos, m, sig)),
    decreases ts.len() - pos,
{
    if sig.rest is None {
        let kind = kind_at(ts, pos);
        let variadic = kind == TokenType::Id && kind_at(ts, pos + 1) == TokenType::Plus;
        let plain = (kind == TokenType::Id && !variadic) || kind == TokenType::Underscore;
        let grown = Signature {
            params: if plain {
                sig.params.push(token_at(ts, pos))
            } else {
                sig.params
            },
            rest: if variadic {
                Some(token_at(ts, pos))
            } else {
                None
            },
        };
        let next = if variadic {
            pos + 2
        } else if plain {
            pos + 1
        } else {
            pos
        };
        if kind_at(ts, next) == TokenType::Comma {
            parameter_items_keeps(ts, next + 1, m, grown);
        }
    }
}

#[verifier::rlimit(80)]
pub proof fn primary_keeps(ts: Seq<TokenView>, pos: nat, m: MacroMap)
    requires
        ready(ts, pos, m),
    ensures
        kept_tree(ts, pos, primary(ts, pos, m)),
    decreases ts.len() - pos, 12nat,
{
    let kind = kind_at(ts, pos);
    let token = token_at(ts, pos);
    if kind == TokenType::LParen {
        group_keeps(ts, pos + 1, m);
    } else if kind == TokenType::LBracket {
        list_literal_keeps(ts, pos + 1, m, token);
    } else if kind == TokenType::LBrace {
        braces_keeps(ts, pos + 1, m, token);
    } else if kind == TokenType::MinusGT {
        lambda_keeps(ts, pos + 1, m);
    } else if kind == TokenType::Func {
        function_keeps(ts, pos, m, false, Seq::empty());
    } else if kind == TokenType::Public {
        function_keeps(ts, pos + 1, m, true, Seq::empty());
    } else if kind == TokenType::At {
        decorated_keeps(ts, pos + 1, m);
    } else if kind == TokenType::Match {
        match_expression_keeps(ts, pos + 1, m, token);
    } else if kind == TokenType::Try {
        try_expression_keeps(ts, pos + 1, m, token);
    } else if kind == TokenType::Unsafe {
        wrapped_keeps(ts, pos + 1, m, token);
    } else if kind == TokenType::Dollar {
        wrapped_keeps(ts, pos + 1, m, token);
    } else if kind == TokenType::Def {
        define_macro_keeps(ts, pos + 1, m);
    } else if kind == TokenType::Redef {
        redefine_macro_keeps(ts, pos + 1, m);
    }
}

#[verifier::rlimit(80)]
pub proof fn group_keeps(ts: Seq<TokenView>, pos: nat, m: MacroMap)
    requires
        ready(ts, pos, m),
    ensures
        kept_tree(ts, pos, group(ts, pos, m)),
    decreases ts.len() - pos, 51nat,
{
    expression_keeps(ts, pos, m);
}

#[verifier::rlimit(80)]
pub proof fn list_literal_keeps(ts: Seq<TokenView>, pos: nat, m: MacroMap, mark: TokenView)
    requires
        ready(ts, pos, m),
    ensures
        kept_tree(ts, pos, list_literal(ts, pos, m, mark)),
    decreases ts.len() - pos, 51nat,
{
    list_items_keeps(ts, pos, m, Seq::empty());
}

#[verifier::rlimit(80)]
pub proof fn list_items_keeps(ts: Seq<TokenView>, pos: nat, m: MacroMap, acc: Seq<ExprView>)
    requires
        ready(ts, pos, m),
    ensures
        kept(ts, pos, list_items(ts, pos, m, acc)),
    decreases ts.len() - pos, 50nat,
{
    if !(kind_at(ts, pos) == TokenType::RBracket || at_end(ts, pos)) {
        expression_keeps(ts, pos, m);
        let item = expression(ts, pos, m);
        if item.carries_on(ts, pos) && kind_at(ts, item.pos) == TokenType::Comma {
            list_items_keeps(ts, item.pos + 1, item.macros, acc.push(item.value()));
        }
    }
}

#[verifier::rlimit(80)]
pub proof fn braces_keeps(ts: Seq<TokenView>, pos: nat, m: MacroMap, mark: TokenView)
    requires
        ready(ts, pos, m),
    ensures
        kept_tree(ts, pos, braces(ts, pos, m, mark)),
    decreases ts.len() - pos, 53nat,
{
    if kind_at(ts, pos) != TokenType::RBrace {
        expression_keeps(ts, pos, m);
        let first = expression(ts, pos, m);
        if first.carries_on(ts, pos) && !at_end(ts, first.pos) {
            if kind_at(ts, first.pos) == TokenType::Colon {
                object_literal_keeps(ts, first.pos + 1, first.macros, first.value());
            } else {
                block_keeps(ts, first.pos, first.macros, first.value());
            }
        }
    }
}

#[verifier::rlimit(80)]
pub proof fn object_literal_keeps(ts: Seq<TokenView>, pos: nat, m: MacroMap, key: ExprView)
    requires
        ready(ts, pos, m),
    ensures
        kept_tree(ts, pos, object_literal(ts, pos, m, key)),
    decreases ts.len() - pos, 52nat,
{
    match key {
        ExprView::Variable { name } => {
            expression_keeps(ts, pos, m);
            let value = expression(ts, pos, m);
            if value.carries_on(ts, pos) && kind_at(ts, value.pos) == TokenType::Comma {
                object_entries_keeps(
                    ts,
                    value.pos + 1,
                    value.macros,
                    Entries { keys: seq![name], values: seq![value.value()] },
                );
            }
        },
        _ => {},
    }
}

#[verifier::rlimit(80)]
pub proof fn object_entries_keeps(ts: Seq<TokenView>, pos: nat, m: MacroMap, acc: Entries)
    requires
        ready(ts, pos, m),
    ensures
        kept(ts, pos, object_entries(ts, pos, m, acc)),
    decreases ts.len() - pos, 50nat,
{
    if !(kind_at(ts, pos) == TokenType::RBrace || at_end(ts, pos)) && kind_at(ts, pos)
        == TokenType::Id && kind_at(ts, pos + 1) == TokenType::Colon {
        expression_keeps(ts, pos + 2, m);
        let value = expression(ts, pos + 2, m);
        if value.carries_on(ts, pos + 2) && kind_at(ts, value.pos) == TokenType::Comma {
            object_entries_keeps(
                ts,
                value.pos + 1,
                value.macros,
                Entries {
                    keys: acc.keys.push(token_at(ts, pos)),
                    values: acc.values.push(value.value()),
                },
            );
        }
    }
}

#[verifier::rlimit(80)]
pub proof fn block_keeps(ts: Seq<TokenView>, pos: nat, m: MacroMap, first: ExprView)
    requires
        ready(ts, pos, m),
    ensures
        kept(ts, pos, block(ts, pos, m, first)),
        block(ts, pos, m, first).out matches Ok(e) ==> !(e is End) && pos < block(
            ts,
            pos,
            m,
            first,
        ).pos,
    decreases ts.len() - pos, 51nat,
{
    block_items_keeps(ts, pos, m, seq![first]);
}

#[verifier::rlimit(80)]
pub proof fn block_items_keeps(ts: Seq<TokenView>, pos: nat, m: MacroMap, acc: Seq<ExprView>)
    requires
        ready(ts, pos, m),
    ensures
        kept(ts, pos, block_items(ts, pos, m, acc)),
    decreases ts.len() - pos, 50nat,
{
    if !(kind_at(ts, pos) == TokenType::RBrace || at_end(ts, pos)) {
        expression_keeps(ts, pos, m);
        let item = expression(ts, pos, m);
        if item.moves_on(ts, pos) {
            block_items_keeps(ts, item.pos, item.macros, acc.push(item.value()));
        }
    }
}

#[verifier::rlimit(80)]
pub proof fn lambda_keeps(ts: Seq<TokenView>, pos: nat, m: MacroMap)
    requires
        ready(ts, pos, m),
    ensures
        kept_tree(ts, pos, lambda(ts, pos, m)),
    decreases ts.len() - pos, 51nat,
{
    expression_keeps(ts, pos, m);
}

#[verifier::rlimit(80)]
pub proof fn function_keeps(
    ts: Seq<TokenView>,
    pos: nat,
    m: MacroMap,
    public: bool,
    decorators: Seq<DecoratorView>,
)
    requires
        ready(ts, pos, m),
    ensures
        kept_tree(ts, pos, function(ts, pos, m, public, decorators)),
    decreases ts.len() - pos, 11nat,
{
    let marked = !public && kind_at(ts, pos) == TokenType::Public;
    let start = if marked {
        pos + 1
    } else {
        pos
    };
    if kind_at(ts, start) == TokenType::Func {
        let named = kind_at(ts, start + 1) == TokenType::Id;
        let open = if named {
            start + 2
        } else {
            start + 1
        };
        parameters_keeps(ts, open, m);
        let sig = parameters(ts, open, m);
        if sig.carries_on(ts, open) {
            expression_keeps(ts, sig.pos, sig.macros);
        }
    }
}

#[verifier::rlimit(80)]
pub proof fn decorated_keeps(ts: Seq<TokenView>, pos: nat, m: MacroMap)
    requires
        ready(ts, pos, m),
    ensures
        kept_tree(ts, pos, decorated(ts, pos, m)),
    decreases ts.len() - pos, 55nat,
{
    if kind_at(ts, pos) == TokenType::LBracket {
        decorators_keeps(ts, pos + 1, m, Seq::empty());
        let list = decorators(ts, pos + 1, m, Seq::empty());
        if list.carries_on(ts, pos + 1) && kind_at(ts, list.pos) == TokenType::RBracket {
            function_keeps(ts, list.pos + 1, list.macros, false, list.value());
        }
    }
}

#[verifier::rlimit(80)]
pub proof fn decorators_keeps(ts: Seq<TokenView>, pos: nat, m: MacroMap, acc: Seq<DecoratorView>)
    requires
        ready(ts, pos, m),
    ensures
        kept(ts, pos, decorators(ts, pos, m, acc)),
    decreases ts.len() - pos, 54nat,
{
    if kind_at(ts, pos) != TokenType::RBracket && kind_at(ts, pos) == TokenType::Id {
        let name = token_at(ts, pos);
        let next = pos + 1;
        if kind_at(ts, next) == TokenType::LParen {
            arguments_keeps(ts, next + 1, m, Seq::empty());
            let args = arguments(ts, next + 1, m, Seq::empty());
            if args.carries_on(ts, next + 1) && kind_at(ts, args.pos) == TokenType::RParen
                && kind_at(ts, args.pos + 1) == TokenType::Comma {
                decorators_keeps(
                    ts,
                    args.pos + 2,
                    args.macros,
                    acc.push(DecoratorView { name, args: args.value() }),
                );
            }
        } else if kind_at(ts, next) == TokenType::Comma {
            decorators_keeps(ts, next + 1, m, acc.push(DecoratorView { name, args: Seq::empty() }));
        }
    }
}

#[verifier::rlimit(80)]
pub proof fn match_expression_keeps(ts: Seq<TokenView>, pos: nat, m: MacroMap, mark: TokenView)
    requires
        ready(ts, pos, m),
    ensures
        kept_tree(ts, pos, match_expression(ts, pos, m, mark)),
    decreases ts.len() - pos, 51nat,
{
    expression_keeps(ts, pos, m);
    let cond = expression(ts, pos, m);
    if cond.carries_on(ts, pos) && kind_at(ts, cond.pos) == TokenType::LBrace {
        match_branches_keeps(ts, cond.pos + 1, cond.macros, Seq::empty());
    }
}

#[verifier::rlimit(80)]
pub proof fn match_branches_keeps(
    ts: Seq<TokenView>,
    pos: nat,
    m: MacroMap,
    acc: Seq<MatchBranchView>,
)
    requires
        ready(ts, pos, m),
    ensures
        kept(ts, pos, match_branches(ts, pos, m, acc)),
    decreases ts.len() - pos, 50nat,
{
    if kind_at(ts, pos) != TokenType::RBrace {
        expression_keeps(ts, pos, m);
        let target = expression(ts, pos, m);
        if target.carries_on(ts, pos) && kind_at(ts, target.pos) == TokenType::MinusGT {
            expression_keeps(ts, target.pos + 1, target.macros);
            let body = expression(ts, target.pos + 1, target.macros);
            if body.carries_on(ts, target.pos + 1) && kind_at(ts, body.pos) == TokenType::Comma {
                match_branches_keeps(
                    ts,
                    body.pos + 1,
                    body.macros,
                    acc.push(
                        MatchBranchView { target: target.value(), body: body.value() },
                    ),
                );
            }
        }
    }
}

#[verifier::rlimit(80)]
pub proof fn try_expression_keeps(ts: Seq<TokenView>, pos: nat, m: MacroMap, mark: TokenView)
    requires
        ready(ts, pos, m),
    ensures
        kept_tree(ts, pos, try_expression(ts, pos, m, mark)),
    decreases ts.len() - pos, 51nat,
{
    expression_keeps(ts, pos, m);
    let result = expression(ts, pos, m);
    if result.carries_on(ts, pos) {
        expression_keeps(ts, result.pos, result.macros);
        let handler = expression(ts, result.pos, result.macros);
        if handler.carries_on(ts, result.pos) && kind_at(ts, handler.pos) == TokenType::Else {
            expression_keeps(ts, handler.pos + 1, handler.macros);
        }
    }
}

#[verifier::rlimit(80)]
pub proof fn wrapped_keeps(ts: Seq<TokenView>, pos: nat, m: MacroMap, mark: TokenView)
    requires
        ready(ts, pos, m),
    ensures
        kept_tree(ts, pos, unsafe_expression(ts, pos, m, mark)),
        kept_tree(ts, pos, shell_expression(ts, pos, m, mark)),
    decreases ts.len() - pos, 51nat,
{
    expression_keeps(ts, pos, m);
}

#[verifier::rlimit(80)]
pub proof fn define_macro_keeps(ts: Seq<TokenView>, pos: nat, m: MacroMap)
    requires
        ready(ts, pos, m),
    ensures
        kept_tree(ts, pos, define_macro(ts, pos, m)),
    decreases ts.len() - pos, 51nat,
{
    if kind_at(ts, pos) == TokenType::Id {
        expression_keeps(ts, pos + 1, m);
    }
}

#[verifier::rlimit(80)]
pub proof fn redefine_macro_keeps(ts: Seq<TokenView>, pos: nat, m: MacroMap)
    requires
        ready(ts, pos, m),
    ensures
        kept_tree(ts, pos, redefine_macro(ts, pos, m)),
    decreases ts.len() - pos, 51nat,
{
    if kind_at(ts, pos) == TokenType::Id {
        expression_keeps(ts, pos + 1, m);
    }
}

/// Skipping to a restart point keeps to the stream.
#[verifier::rlimit(80)]
pub proof fn skip_keeps(ts: Seq<TokenView>, pos: nat)
    requires
        well_formed(ts),
        pos < ts.len(),
    ensures
        pos <= skip_to_restart(ts, pos) < ts.len(),
    decreases ts.len() - pos,
{
    if !at_end(ts, pos) && !is_restart(kind_at(ts, pos)) {
        skip_keeps(ts, pos + 1);
    }
}

/// One turn of the top-level loop keeps to the stream, and moves the cursor
/// on unless it stands at the end.
#[verifier::rlimit(80)]
pub proof fn top_level_keeps(ts: Seq<TokenView>, pos: nat, m: MacroMap)
    requires
        ready(ts, pos, m),
    ensures
        pos <= top_level(ts, pos, m).pos < ts.len(),
        !at_end(ts, pos) ==> pos < top_level(ts, pos, m).pos,
        end_free(top_level(ts, pos, m).macros),
        top_level(ts, pos, m).node matches Some(e) ==> !(e is End),
        (top_level(ts, pos, m).node is Some) != (top_level(ts, pos, m).error is Some),
{
    expression_keeps(ts, pos, m);
    let step = expression(ts, pos, m);
    if step.out is Err && !at_end(ts, step.pos) {
        skip_keeps(ts, step.pos + 1);
    }
}

/// Whether none of the trees is the end marker.
pub open spec fn no_end(nodes: Seq<ExprView>) -> bool {
    forall|i: int| 0 <= i < nodes.len() ==> !(#[trigger] nodes[i] is End)
}

/// The top-level loop runs to the end of the stream, and hands on no end
/// marker of its own.
#[verifier::rlimit(80)]
pub proof fn program_keeps(
    ts: Seq<TokenView>,
    pos: nat,
    m: MacroMap,
    nodes: Seq<ExprView>,
    errors: Seq<ErrorView>,
)
    requires
        ready(ts, pos, m),
        no_end(nodes),
    ensures
        at_end(ts, program(ts, pos, m, nodes, errors).pos),
        pos <= program(ts, pos, m, nodes, errors).pos < ts.len(),
        no_end(program(ts, pos, m, nodes, errors).nodes),
        end_free(program(ts, pos, m, nodes, errors).macros),
    decreases ts.len() - pos,
{
    if !at_end(ts, pos) {
        top_level_keeps(ts, pos, m);
        let turn = top_level(ts, pos, m);
        program_keeps(
            ts,
            turn.pos,
            turn.macros,
            with_optional(nodes, turn.node),
            with_optional(errors, turn.error),
        );
    }
}

/// In what a stream sends downstream, the end marker comes last and occurs
/// nowhere else.
pub proof fn end_marker_comes_last(ts: Seq<TokenView>)
    requires
        well_formed(ts),
    ensures
        node_stream(ts).last() is End,
        no_end(node_stream(ts).drop_last()),
{
    program_keeps(ts, 0, Map::empty(), Seq::empty(), Seq::empty());
    assert(node_stream(ts).drop_last() =~= parsed(ts).nodes);
}

} // verus!
